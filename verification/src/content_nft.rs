use vstd::prelude::*;
use crate::address::Address;
use crate::error::Error;
use crate::events::Event;
use crate::keyed::{distinct_keys, has_key, index_of, lemma_lookup, Keyed};

verus! {

/// One piece of content. Its identifier, creator, creation time and type never
/// change; its URI and its price change only at the creator's word.
#[derive(Debug, PartialEq, Eq)]
pub struct ContentMetadata {
    pub content_id: u64,
    pub creator: Address,
    pub metadata_uri: String,
    pub price: i128,
    pub created_at: u64,
    pub content_type: String,
}

impl Clone for ContentMetadata {
    fn clone(&self) -> (c: ContentMetadata)
        ensures
            c == *self,
    {
        ContentMetadata {
            content_id: self.content_id,
            creator: self.creator.clone(),
            metadata_uri: self.metadata_uri.clone(),
            price: self.price,
            created_at: self.created_at,
            content_type: self.content_type.clone(),
        }
    }
}

/// What a registry holds, as mathematics: how many pieces were minted, the
/// record of each by identifier, and each creator's identifiers in the order
/// of minting.
pub struct ContentNFTView {
    pub counter: nat,
    pub contents: Map<u64, ContentMetadata>,
    pub creator_contents: Map<Seq<char>, Seq<u64>>,
}

impl ContentNFTView {
    /// The registry in which nothing was minted yet.
    pub open spec fn empty() -> ContentNFTView {
        ContentNFTView { counter: 0, contents: Map::empty(), creator_contents: Map::empty() }
    }

    /// Whether `content_id` was minted.
    pub open spec fn minted(self, content_id: u64) -> bool {
        self.contents.dom().contains(content_id)
    }

    /// The identifiers of `creator`'s content in the order of minting; empty
    /// for a creator who minted nothing.
    pub open spec fn listing(self, creator: Seq<char>) -> Seq<u64> {
        if self.creator_contents.dom().contains(creator) {
            self.creator_contents[creator]
        } else {
            Seq::empty()
        }
    }

    /// What holds of every registry: the identifiers in use are exactly 1 to
    /// the counter, every record carries its own identifier, and a creator's
    /// listing holds, in rising order, exactly the identifiers of the records
    /// of that creator.
    pub open spec fn inv(self) -> bool {
        &&& self.counter <= u64::MAX
        &&& forall|id: u64| #[trigger] self.minted(id) <==> 1 <= id <= self.counter
        &&& forall|id: u64| #[trigger] self.minted(id) ==> self.contents[id].content_id == id
        &&& forall|c: Seq<char>, k: int|
            0 <= k < self.listing(c).len() ==> {
                let id = #[trigger] self.listing(c)[k];
                self.minted(id) && self.contents[id].creator@ == c
            }
        &&& forall|c: Seq<char>, j: int, k: int|
            0 <= j < k < self.listing(c).len() ==> #[trigger] self.listing(c)[j]
                < #[trigger] self.listing(c)[k]
        &&& forall|id: u64| #[trigger]
            self.minted(id) ==> self.listing(self.contents[id].creator@).contains(id)
    }

    /// The registry after `creator` minted one more piece at time `now`.
    pub open spec fn mint(
        self,
        creator: Address,
        metadata_uri: String,
        price: i128,
        content_type: String,
        now: u64,
    ) -> ContentNFTView {
        let id = (self.counter + 1) as u64;
        ContentNFTView {
            counter: self.counter + 1,
            contents: self.contents.insert(
                id,
                ContentMetadata {
                    content_id: id,
                    creator,
                    metadata_uri,
                    price,
                    created_at: now,
                    content_type,
                },
            ),
            creator_contents: self.creator_contents.insert(
                creator@,
                self.listing(creator@).push(id),
            ),
        }
    }

    /// Why a mint asked by `caller` in the name of `creator` is refused, if it
    /// is: the caller must be the creator, and an identifier must be left.
    pub open spec fn mint_refusal(self, caller: Seq<char>, creator: Seq<char>) -> Option<Error> {
        if caller != creator {
            Some(Error::Unauthorized)
        } else if self.counter >= u64::MAX {
            Some(Error::Overflow)
        } else {
            None
        }
    }

    /// Why a change to `content_id` asked by `caller` is refused, if it is:
    /// the content must exist, and the caller must be its creator.
    pub open spec fn update_refusal(self, caller: Seq<char>, content_id: u64) -> Option<Error> {
        if !self.minted(content_id) {
            Some(Error::NotFound)
        } else if caller != self.contents[content_id].creator@ {
            Some(Error::Unauthorized)
        } else {
            None
        }
    }

    /// The registry after the URI of `content_id` was replaced.
    pub open spec fn set_uri(self, content_id: u64, new_uri: String) -> ContentNFTView {
        ContentNFTView {
            contents: self.contents.insert(
                content_id,
                ContentMetadata { metadata_uri: new_uri, ..self.contents[content_id] },
            ),
            ..self
        }
    }

    /// The registry after the price of `content_id` was replaced.
    pub open spec fn set_price(self, content_id: u64, new_price: i128) -> ContentNFTView {
        ContentNFTView {
            contents: self.contents.insert(
                content_id,
                ContentMetadata { price: new_price, ..self.contents[content_id] },
            ),
            ..self
        }
    }
}

/// The content of one creator, in the order of minting.
struct CreatorContents {
    creator: Address,
    content_ids: Vec<u64>,
}

impl Keyed for CreatorContents {
    type Key = Seq<char>;

    closed spec fn key(&self) -> Seq<char> {
        self.creator@
    }
}

/// Minting keeps a registry in order.
pub proof fn lemma_mint_preserves_inv(
    s: ContentNFTView,
    creator: Address,
    metadata_uri: String,
    price: i128,
    content_type: String,
    now: u64,
)
    requires
        s.inv(),
        s.counter < u64::MAX,
    ensures
        s.mint(creator, metadata_uri, price, content_type, now).inv(),
{
    let t = s.mint(creator, metadata_uri, price, content_type, now);
    let id = (s.counter + 1) as u64;
    assert(!s.minted(id));
    assert forall|c: Seq<char>| #[trigger] t.listing(c) == if c == creator@ {
        s.listing(c).push(id)
    } else {
        s.listing(c)
    } by {}
    assert forall|other: u64| #[trigger] t.minted(other) <==> (s.minted(other) || other == id) by {}
    assert forall|c: Seq<char>, k: int| 0 <= k < t.listing(c).len() implies {
        let e = #[trigger] t.listing(c)[k];
        t.minted(e) && t.contents[e].creator@ == c
    } by {
        if c == creator@ && k == s.listing(c).len() {
        } else {
            let e = s.listing(c)[k];
            assert(s.minted(e));
        }
    }
    assert forall|c: Seq<char>, j: int, k: int| 0 <= j < k < t.listing(c).len() implies #[trigger]
        t.listing(c)[j] < #[trigger] t.listing(c)[k] by {
        let e = s.listing(c)[j];
        assert(s.minted(e));
        if c == creator@ && k == s.listing(c).len() {
        } else {
            assert(s.listing(c)[j] < s.listing(c)[k]);
        }
    }
    assert forall|other: u64| #[trigger] t.minted(other) implies t.listing(
        t.contents[other].creator@,
    ).contains(other) by {
        if other == id {
            assert(t.listing(creator@)[s.listing(creator@).len() as int] == id);
        } else {
            let c = s.contents[other].creator@;
            assert(s.listing(c).contains(other));
            let k = choose|k: int| 0 <= k < s.listing(c).len() && s.listing(c)[k] == other;
            assert(t.listing(c)[k] == other);
        }
    }
}

/// A mint assigns the identifier that follows the counter: it was not in use,
/// it is greater than every identifier in use, and after the mint the
/// identifiers in use are those of before and this one, so none is skipped
/// and none is given twice.
pub proof fn lemma_mint_assigns_next_identifier(
    s: ContentNFTView,
    creator: Address,
    metadata_uri: String,
    price: i128,
    content_type: String,
    now: u64,
)
    requires
        s.inv(),
        s.counter < u64::MAX,
    ensures
        ({
            let t = s.mint(creator, metadata_uri, price, content_type, now);
            let id = (s.counter + 1) as u64;
            &&& t.counter == id
            &&& !s.minted(id)
            &&& forall|other: u64| #[trigger] s.minted(other) ==> other < id
            &&& forall|other: u64| #[trigger] t.minted(other) <==> s.minted(other) || other == id
            &&& forall|other: u64| #[trigger]
                s.minted(other) ==> t.contents[other] == s.contents[other]
            &&& t.contents[id].content_id == id
        }),
{
    let id = (s.counter + 1) as u64;
    assert(!s.minted(id));
}

/// What is asked of one mint.
pub struct MintRequest {
    pub creator: Address,
    pub metadata_uri: String,
    pub price: i128,
    pub content_type: String,
    pub now: u64,
}

impl ContentNFTView {
    /// The registry after the mints of `requests`, one after another.
    pub open spec fn mint_all(self, requests: Seq<MintRequest>) -> ContentNFTView
        decreases requests.len(),
    {
        if requests.len() == 0 {
            self
        } else {
            let last = requests.last();
            self.mint_all(requests.drop_last()).mint(
                last.creator,
                last.metadata_uri,
                last.price,
                last.content_type,
                last.now,
            )
        }
    }
}

/// Mints made one after another receive consecutive identifiers: the first
/// the identifier that follows the counter, each later one the identifier
/// that follows that of the mint before it. What was minted earlier keeps its
/// identifier and its record.
pub proof fn lemma_mints_are_numbered_in_order(s: ContentNFTView, requests: Seq<MintRequest>)
    requires
        s.inv(),
        s.counter + requests.len() <= u64::MAX,
    ensures
        ({
            let t = s.mint_all(requests);
            &&& t.inv()
            &&& t.counter == s.counter + requests.len()
            &&& forall|id: u64| #[trigger] s.minted(id) ==> t.contents[id] == s.contents[id]
            &&& forall|k: int|
                0 <= k < requests.len() ==> {
                    let id = (s.counter + 1 + k) as u64;
                    &&& t.minted(id)
                    &&& t.contents[id] == ContentMetadata {
                        content_id: id,
                        creator: (#[trigger] requests[k]).creator,
                        metadata_uri: requests[k].metadata_uri,
                        price: requests[k].price,
                        created_at: requests[k].now,
                        content_type: requests[k].content_type,
                    }
                }
        }),
    decreases requests.len(),
{
    if requests.len() > 0 {
        let last = requests.last();
        let earlier = requests.drop_last();
        let m = s.mint_all(earlier);
        lemma_mints_are_numbered_in_order(s, earlier);
        lemma_mint_preserves_inv(
            m,
            last.creator,
            last.metadata_uri,
            last.price,
            last.content_type,
            last.now,
        );
        let t = s.mint_all(requests);
        assert forall|id: u64| #[trigger] s.minted(id) implies t.contents[id] == s.contents[id] by {
            assert(m.minted(id));
        }
        assert forall|k: int| 0 <= k < requests.len() implies {
            let id = (s.counter + 1 + k) as u64;
            &&& t.minted(id)
            &&& t.contents[id] == ContentMetadata {
                content_id: id,
                creator: (#[trigger] requests[k]).creator,
                metadata_uri: requests[k].metadata_uri,
                price: requests[k].price,
                created_at: requests[k].now,
                content_type: requests[k].content_type,
            }
        } by {
            if k < earlier.len() {
                assert(earlier[k] == requests[k]);
                let id = (s.counter + 1 + k) as u64;
                assert(m.minted(id));
            }
        }
    }
}

/// Replacing a URI or a price keeps a registry in order, and leaves the
/// counter, the identifiers in use, every creator and every listing as they
/// were.
pub proof fn lemma_update_preserves_inv(
    s: ContentNFTView,
    content_id: u64,
    new_uri: String,
    new_price: i128,
)
    requires
        s.inv(),
        s.minted(content_id),
    ensures
        s.set_uri(content_id, new_uri).inv(),
        s.set_price(content_id, new_price).inv(),
{
    let t = s.set_uri(content_id, new_uri);
    let u = s.set_price(content_id, new_price);
    assert forall|id: u64| #[trigger] t.minted(id) <==> s.minted(id) by {}
    assert forall|id: u64| #[trigger] u.minted(id) <==> s.minted(id) by {}
    assert forall|c: Seq<char>| #[trigger] t.listing(c) == s.listing(c) && #[trigger] u.listing(c)
        == s.listing(c) by {}
    assert forall|c: Seq<char>, k: int| 0 <= k < t.listing(c).len() implies {
        let e = #[trigger] t.listing(c)[k];
        t.minted(e) && t.contents[e].creator@ == c
    } by {
        let e = s.listing(c)[k];
        assert(s.minted(e));
    }
    assert forall|c: Seq<char>, k: int| 0 <= k < u.listing(c).len() implies {
        let e = #[trigger] u.listing(c)[k];
        u.minted(e) && u.contents[e].creator@ == c
    } by {
        let e = s.listing(c)[k];
        assert(s.minted(e));
    }
    assert forall|id: u64| #[trigger] t.minted(id) implies t.listing(
        t.contents[id].creator@,
    ).contains(id) by {
        assert(s.minted(id));
    }
    assert forall|id: u64| #[trigger] u.minted(id) implies u.listing(
        u.contents[id].creator@,
    ).contains(id) by {
        assert(s.minted(id));
    }
}

/// Whether `records` are numbered from 1 in their order.
pub open spec fn numbered(records: Seq<ContentMetadata>) -> bool {
    forall|i: int| 0 <= i < records.len() ==> (#[trigger] records[i]).content_id == i + 1
}

/// The content registry: every piece of content ever minted, and for every
/// creator the pieces that are theirs.
pub struct ContentNFTContract {
    contents: Vec<ContentMetadata>,
    creator_contents: Vec<CreatorContents>,
}

impl View for ContentNFTContract {
    type V = ContentNFTView;

    closed spec fn view(&self) -> ContentNFTView {
        ContentNFTView {
            counter: self.contents@.len(),
            contents: Map::new(
                |id: u64| 1 <= id <= self.contents@.len(),
                |id: u64| self.contents@[id - 1],
            ),
            creator_contents: Map::new(
                |c: Seq<char>| has_key(self.creator_contents@, c),
                |c: Seq<char>|
                    self.creator_contents@[index_of(self.creator_contents@, c)].content_ids@,
            ),
        }
    }
}

impl ContentNFTContract {
    /// How the registry is laid out in memory: records in the order of their
    /// identifiers, one listing for each creator.
    pub closed spec fn laid_out(&self) -> bool {
        &&& forall|i: int|
            0 <= i < self.contents@.len() ==> (#[trigger] self.contents@[i]).content_id == i + 1
        &&& distinct_keys(self.creator_contents@)
    }

    /// Whether the registry is one that `new` and the operations can have
    /// made.
    pub open spec fn wf(&self) -> bool {
        self.laid_out() && self@.inv()
    }

    /// A registry in which nothing was minted yet.
    pub fn new() -> (registry: ContentNFTContract)
        ensures
            registry.wf(),
            registry@ == ContentNFTView::empty(),
    {
        let registry = ContentNFTContract { contents: Vec::new(), creator_contents: Vec::new() };
        assert(registry@.contents =~= Map::empty());
        assert(registry@.creator_contents =~= Map::empty());
        registry
    }

    /// The registry that holds `records`, as they were kept elsewhere in the
    /// order of their identifiers; none if they are not numbered from 1 in
    /// that order. The listings are made again from the records.
    pub fn restore(records: Vec<ContentMetadata>) -> (restored: Option<ContentNFTContract>)
        ensures
            match restored {
                Some(registry) => {
                    &&& numbered(records@)
                    &&& registry.wf()
                    &&& registry@.counter == records@.len()
                    &&& forall|i: int|
                        0 <= i < records@.len() ==> registry@.contents[(i + 1) as u64]
                            == #[trigger] records@[i]
                },
                None => !numbered(records@),
            },
    {
        let mut registry = ContentNFTContract::new();
        let mut i: usize = 0;
        while i < records.len()
            invariant
                i <= records@.len(),
                registry.wf(),
                registry@.counter == i,
                forall|j: int| 0 <= j < i ==> (#[trigger] records@[j]).content_id == j + 1,
                forall|j: int|
                    0 <= j < i ==> registry@.contents[(j + 1) as u64] == #[trigger] records@[j],
            decreases records@.len() - i,
        {
            if records[i].content_id != i as u64 + 1 {
                return None;
            }
            let ghost before = registry@;
            registry.append(records[i].clone());
            proof {
                assert forall|j: int| 0 <= j < i + 1 implies registry@.contents[(j + 1) as u64]
                    == #[trigger] records@[j] by {
                    if j < i {
                        assert(before.minted((j + 1) as u64));
                    }
                }
            }
            i += 1;
        }
        Some(registry)
    }

    /// Where the listing of `creator` is kept, if there is one.
    fn find_creator(&self, creator: &Address) -> (found: Option<usize>)
        ensures
            match found {
                Some(i) => i < self.creator_contents@.len() && self.creator_contents@[i as int].creator@
                    == creator@,
                None => !has_key(self.creator_contents@, creator@),
            },
    {
        let mut i: usize = 0;
        while i < self.creator_contents.len()
            invariant
                i <= self.creator_contents@.len(),
                forall|j: int|
                    0 <= j < i ==> (#[trigger] self.creator_contents@[j]).key() != creator@,
            decreases self.creator_contents@.len() - i,
        {
            if self.creator_contents[i].creator == *creator {
                return Some(i);
            }
            i += 1;
        }
        None
    }

    /// Appends `record`, which carries the next identifier, and lists it
    /// under its creator.
    fn append(&mut self, record: ContentMetadata)
        requires
            old(self).wf(),
            old(self)@.counter < u64::MAX,
            record.content_id == old(self)@.counter + 1,
        ensures
            final(self).wf(),
            final(self)@ == old(self)@.mint(
                record.creator,
                record.metadata_uri,
                record.price,
                record.content_type,
                record.created_at,
            ),
    {
        let id = record.content_id;
        let slot = self.find_creator(&record.creator);
        let ghost before = *self;
        let ghost creator = record.creator@;
        let ghost after = before@.mint(
            record.creator,
            record.metadata_uri,
            record.price,
            record.content_type,
            record.created_at,
        );
        match slot {
            Some(i) => {
                proof {
                    lemma_lookup(before.creator_contents@, i as int);
                }
                self.creator_contents[i].content_ids.push(id);
            },
            None => {
                let mut content_ids: Vec<u64> = Vec::new();
                content_ids.push(id);
                self.creator_contents.push(
                    CreatorContents { creator: record.creator.clone(), content_ids },
                );
            },
        }
        self.contents.push(record);
        proof {
            let entries = self.creator_contents@;
            let earlier = before.creator_contents@;
            assert forall|i: int, j: int| 0 <= i < j < entries.len() implies (#[trigger] entries[i]).key()
                != (#[trigger] entries[j]).key() by {
                if j < earlier.len() {
                    assert(earlier[i].key() != earlier[j].key());
                } else {
                    assert(earlier[i].key() != creator);
                }
            }
            assert forall|c: Seq<char>| #[trigger]
                after.creator_contents.dom().contains(c) implies has_key(entries, c)
                && entries[index_of(entries, c)].content_ids@ == after.creator_contents[c] by {
                if c == creator {
                    match slot {
                        Some(i) => {
                            lemma_lookup(entries, i as int);
                        },
                        None => {
                            lemma_lookup(entries, entries.len() - 1);
                            assert(after.creator_contents[c] =~= seq![id]);
                            assert(entries[entries.len() - 1].content_ids@ =~= seq![id]);
                        },
                    }
                } else {
                    let k = index_of(earlier, c);
                    assert(entries[k].key() == c);
                    lemma_lookup(entries, k);
                }
            }
            assert forall|c: Seq<char>| has_key(entries, c) implies #[trigger]
                after.creator_contents.dom().contains(c) by {
                let k = index_of(entries, c);
                if c != creator {
                    assert(earlier[k].key() == c);
                }
            }
            assert(self@.creator_contents =~= after.creator_contents);
            assert(self@.contents =~= after.contents);
            lemma_mint_preserves_inv(
                before@,
                record.creator,
                record.metadata_uri,
                record.price,
                record.content_type,
                record.created_at,
            );
        }
    }

    /// Mints a piece of content for `creator` at time `now` and gives it the
    /// next identifier: one more than the number of pieces minted before.
    ///
    /// The caller must be the creator, and an identifier must be left; a
    /// refused mint changes nothing. No price is turned away for its sign.
    pub fn mint_content(
        &mut self,
        caller: &Address,
        now: u64,
        creator: Address,
        metadata_uri: String,
        price: i128,
        content_type: String,
    ) -> (minted: Result<(u64, Event), Error>)
        requires
            old(self).wf(),
        ensures
            final(self).wf(),
            match old(self)@.mint_refusal(caller@, creator@) {
                Some(e) => minted == Err::<(u64, Event), Error>(e) && *final(self) == *old(self),
                None => {
                    let id = (old(self)@.counter + 1) as u64;
                    &&& minted == Ok::<(u64, Event), Error>(
                        (id, Event::ContentMinted { content_id: id, creator, price }),
                    )
                    &&& final(self)@ == old(self)@.mint(
                        creator,
                        metadata_uri,
                        price,
                        content_type,
                        now,
                    )
                },
            },
    {
        if !(*caller == creator) {
            return Err(Error::Unauthorized);
        }
        let count = self.contents.len() as u64;
        if count == u64::MAX {
            return Err(Error::Overflow);
        }
        let content_id: u64 = count + 1;
        self.append(
            ContentMetadata {
                content_id,
                creator: creator.clone(),
                metadata_uri,
                price,
                created_at: now,
                content_type,
            },
        );
        Ok((content_id, Event::ContentMinted { content_id, creator, price }))
    }

    /// Replaces the URI of `content_id`. The content must exist and the
    /// caller must be its creator; a refused change changes nothing.
    pub fn update_content_uri(
        &mut self,
        caller: &Address,
        content_id: u64,
        new_uri: String,
    ) -> (updated: Result<Event, Error>)
        requires
            old(self).wf(),
        ensures
            final(self).wf(),
            match old(self)@.update_refusal(caller@, content_id) {
                Some(e) => updated == Err::<Event, Error>(e) && *final(self) == *old(self),
                None => {
                    &&& updated == Ok::<Event, Error>(
                        Event::ContentUpdated {
                            content_id,
                            creator: old(self)@.contents[content_id].creator,
                        },
                    )
                    &&& final(self)@ == old(self)@.set_uri(content_id, new_uri)
                },
            },
    {
        if content_id == 0 || content_id - 1 >= self.contents.len() as u64 {
            return Err(Error::NotFound);
        }
        let i = (content_id - 1) as usize;
        if !(self.contents[i].creator == *caller) {
            return Err(Error::Unauthorized);
        }
        let ghost before = *self;
        self.contents[i].metadata_uri = new_uri;
        proof {
            assert(self@.contents =~= before@.set_uri(content_id, new_uri).contents);
            lemma_update_preserves_inv(before@, content_id, new_uri, 0);
        }
        Ok(Event::ContentUpdated { content_id, creator: self.contents[i].creator.clone() })
    }

    /// Replaces the price of `content_id`. The content must exist and the
    /// caller must be its creator; a refused change changes nothing. No price
    /// is turned away for its sign.
    pub fn update_price(
        &mut self,
        caller: &Address,
        content_id: u64,
        new_price: i128,
    ) -> (updated: Result<Event, Error>)
        requires
            old(self).wf(),
        ensures
            final(self).wf(),
            match old(self)@.update_refusal(caller@, content_id) {
                Some(e) => updated == Err::<Event, Error>(e) && *final(self) == *old(self),
                None => {
                    &&& updated == Ok::<Event, Error>(Event::PriceUpdated { content_id, new_price })
                    &&& final(self)@ == old(self)@.set_price(content_id, new_price)
                },
            },
    {
        if content_id == 0 || content_id - 1 >= self.contents.len() as u64 {
            return Err(Error::NotFound);
        }
        let i = (content_id - 1) as usize;
        if !(self.contents[i].creator == *caller) {
            return Err(Error::Unauthorized);
        }
        let ghost before = *self;
        self.contents[i].price = new_price;
        proof {
            assert(self@.contents =~= before@.set_price(content_id, new_price).contents);
            lemma_update_preserves_inv(
                before@,
                content_id,
                before.contents@[i as int].metadata_uri,
                new_price,
            );
        }
        Ok(Event::PriceUpdated { content_id, new_price })
    }

    /// The identifiers of the content of `creator`, in the order of minting;
    /// empty for a creator who minted nothing.
    pub fn get_creator_contents(&self, creator: Address) -> (ids: Vec<u64>)
        requires
            self.wf(),
        ensures
            ids@ == self@.listing(creator@),
    {
        match self.find_creator(&creator) {
            Some(i) => {
                proof {
                    lemma_lookup(self.creator_contents@, i as int);
                }
                self.creator_contents[i].content_ids.clone()
            },
            None => Vec::new(),
        }
    }

    /// The record of `content_id`, if it was minted.
    pub fn get_content(&self, content_id: u64) -> (found: Option<ContentMetadata>)
        requires
            self.wf(),
        ensures
            found == if self@.minted(content_id) {
                Some(self@.contents[content_id])
            } else {
                None
            },
    {
        if 1 <= content_id && content_id - 1 < self.contents.len() as u64 {
            Some(self.contents[(content_id - 1) as usize].clone())
        } else {
            None
        }
    }
}

} // verus!
