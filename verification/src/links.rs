use vstd::prelude::*;
use vstd::slice::slice_to_vec;
use crate::types::{HoloHash, LinkTag, Timestamp};
use crate::error::ZomeUtilsError;

verus! {

/// The kinds of hash that a link can point at.
#[derive(Clone, Copy, Debug, PartialEq, Eq, Structural)]
pub enum LinkableKind {
    Entry,
    Action,
    External,
}

/// The kinds of hash that the DHT holds data at.
#[derive(Clone, Copy, Debug, PartialEq, Eq, Structural)]
pub enum DhtKind {
    Entry,
    Action,
}

/// A hash that a link can point at, with its kind.
pub struct AnyLinkableHash {
    pub kind: LinkableKind,
    pub hash: HoloHash,
}

/// A hash of data on the DHT, with its kind.
pub struct AnyDhtHash {
    pub kind: DhtKind,
    pub hash: HoloHash,
}

/// Where a `get` looks for data.
#[derive(Clone, Copy, Debug, PartialEq, Eq, Structural)]
pub enum GetStrategy {
    /// Ask the network, falling back to what is held locally.
    Network,
    /// Look only at what is held locally.
    Local,
}

/// What a `get` is asked for: a DHT hash and where to look.
pub struct GetInput {
    pub any_dht_hash: AnyDhtHash,
    pub get_options: GetStrategy,
}

/// A link between two hashes.
pub struct Link {
    /// The agent that created the link.
    pub author: HoloHash,
    /// The hash the link goes from.
    pub base: AnyLinkableHash,
    /// The hash the link goes to.
    pub target: AnyLinkableHash,
    /// When the link was created.
    pub timestamp: Timestamp,
    /// The index of the zome that defines the link type.
    pub zome_index: u8,
    /// The link type within that zome.
    pub link_type: u8,
    /// The link's tag.
    pub tag: LinkTag,
    /// The hash of the action that created the link.
    pub create_link_hash: HoloHash,
}

/// What a leaf anchor's link to an item tells: the item's hash, the link's tag
/// and the link's scoped type.
pub struct ItemLink {
    pub item_hash: AnyLinkableHash,
    pub tag: Vec<u8>,
    pub zome_index: u8,
    pub link_index: u8,
}

/// The DHT kind of a linkable kind, if it has one.
pub open spec fn dht_kind(kind: LinkableKind) -> Option<DhtKind> {
    match kind {
        LinkableKind::Entry => Some(DhtKind::Entry),
        LinkableKind::Action => Some(DhtKind::Action),
        LinkableKind::External => None,
    }
}

/// Whether a link whose target has the given kind is fetched under the
/// filter: external targets never are; an entry target is skipped only when
/// the filter asks for actions, an action target only when it asks for
/// entries.
pub open spec fn keeps_target(kind: LinkableKind, filter: Option<LinkableKind>) -> bool {
    match kind {
        LinkableKind::Entry => filter != Some(LinkableKind::Action),
        LinkableKind::Action => filter != Some(LinkableKind::Entry),
        LinkableKind::External => false,
    }
}

/// The links, in order, whose targets the filter keeps.
pub open spec fn kept_links(links: Seq<Link>, filter: Option<LinkableKind>) -> Seq<Link>
    decreases links.len(),
{
    if links.len() == 0 {
        seq![]
    } else if keeps_target(links.last().target.kind, filter) {
        kept_links(links.drop_last(), filter).push(links.last())
    } else {
        kept_links(links.drop_last(), filter)
    }
}

fn copy_hash(hash: &HoloHash) -> (res: HoloHash)
    ensures
        res@ == hash@,
{
    HoloHash(slice_to_vec(hash.0.as_slice()))
}

/// Turn a linkable hash into a DHT hash; an external hash has none.
pub fn into_dht_hash(yh: AnyLinkableHash) -> (res: Result<AnyDhtHash, ZomeUtilsError>)
    ensures
        res is Ok <==> dht_kind(yh.kind) is Some,
        res matches Ok(dh) ==> Some(dh.kind) == dht_kind(yh.kind) && dh.hash == yh.hash,
        res matches Err(e) ==> e is ExternalLinkType,
{
    match yh.kind {
        LinkableKind::Entry => Ok(AnyDhtHash { kind: DhtKind::Entry, hash: yh.hash }),
        LinkableKind::Action => Ok(AnyDhtHash { kind: DhtKind::Action, hash: yh.hash }),
        LinkableKind::External => Err(ZomeUtilsError::ExternalLinkType),
    }
}

/// Pair each link whose target the filter keeps with the `get` of its target
/// from the network, keeping the links' order.
#[allow(non_snake_case)]
pub fn links_to_GetInputs(links: Vec<Link>, maybe_filter: Option<LinkableKind>) -> (res: Vec<(GetInput, Link)>)
    ensures
        res@.len() == kept_links(links@, maybe_filter).len(),
        forall|i: int| 0 <= i < res@.len() ==> {
            let link = kept_links(links@, maybe_filter)[i];
            &&& #[trigger] res@[i].1 == link
            &&& Some(res@[i].0.any_dht_hash.kind) == dht_kind(link.target.kind)
            &&& res@[i].0.any_dht_hash.hash@ == link.target.hash@
            &&& res@[i].0.get_options == GetStrategy::Network
        },
{
    let ghost all = links@;
    assert(all.len() == links.len());
    let mut rest = links;
    let mut get_inputs: Vec<(GetInput, Link)> = Vec::new();
    let mut n: usize = 0;
    while rest.len() > 0
        invariant
            n <= all.len() <= usize::MAX,
            rest@ == all.skip(n as int),
            get_inputs@.len() == kept_links(all.take(n as int), maybe_filter).len(),
            forall|i: int| 0 <= i < get_inputs@.len() ==> {
                let link = kept_links(all.take(n as int), maybe_filter)[i];
                &&& #[trigger] get_inputs@[i].1 == link
                &&& Some(get_inputs@[i].0.any_dht_hash.kind) == dht_kind(link.target.kind)
                &&& get_inputs@[i].0.any_dht_hash.hash@ == link.target.hash@
                &&& get_inputs@[i].0.get_options == GetStrategy::Network
            },
        decreases rest.len(),
    {
        let link = rest.remove(0);
        proof {
            assert(all.take(n + 1).drop_last() =~= all.take(n as int));
            assert(all.take(n + 1).last() == link);
        }
        let ghost prev = get_inputs@;
        let kind = link.target.kind;
        let dht = match kind {
            LinkableKind::Entry => {
                if maybe_filter == Some(LinkableKind::Action) {
                    None
                } else {
                    Some(DhtKind::Entry)
                }
            },
            LinkableKind::Action => {
                if maybe_filter == Some(LinkableKind::Entry) {
                    None
                } else {
                    Some(DhtKind::Action)
                }
            },
            LinkableKind::External => None,
        };
        match dht {
            Some(dht_kind) => {
                let input = GetInput {
                    any_dht_hash: AnyDhtHash { kind: dht_kind, hash: copy_hash(&link.target.hash) },
                    get_options: GetStrategy::Network,
                };
                get_inputs.push((input, link));
            },
            None => {},
        }
        n = n + 1;
        proof {
            assert(rest@ =~= all.skip(n as int));
        }
    }
    assert(all.take(n as int) =~= all);
    get_inputs
}

impl ItemLink {
    /// The item link that a link describes: its target, tag and scoped type.
    pub fn from(link: Link) -> (item: ItemLink)
        ensures
            item.item_hash == link.target,
            item.tag@ == link.tag@,
            item.zome_index == link.zome_index,
            item.link_index == link.link_type,
    {
        ItemLink {
            item_hash: link.target,
            tag: link.tag.0,
            zome_index: link.zome_index,
            link_index: link.link_type,
        }
    }
}

/// The item link of each link, in order.
pub fn itemlinks_from_links(links: Vec<Link>) -> (res: Vec<ItemLink>)
    ensures
        res@.len() == links@.len(),
        forall|i: int| 0 <= i < res@.len() ==> {
            &&& (#[trigger] res@[i]).item_hash == links@[i].target
            &&& res@[i].tag@ == links@[i].tag@
            &&& res@[i].zome_index == links@[i].zome_index
            &&& res@[i].link_index == links@[i].link_type
        },
{
    let ghost all = links@;
    assert(all.len() == links.len());
    let mut rest = links;
    let mut res: Vec<ItemLink> = Vec::new();
    let mut n: usize = 0;
    while rest.len() > 0
        invariant
            n <= all.len() <= usize::MAX,
            rest@ == all.skip(n as int),
            res@.len() == n,
            forall|i: int| 0 <= i < n ==> {
                &&& (#[trigger] res@[i]).item_hash == all[i].target
                &&& res@[i].tag@ == all[i].tag@
                &&& res@[i].zome_index == all[i].zome_index
                &&& res@[i].link_index == all[i].link_type
            },
        decreases rest.len(),
    {
        let link = rest.remove(0);
        assert(link == all[n as int]);
        res.push(ItemLink::from(link));
        n = n + 1;
        proof {
            assert(rest@ =~= all.skip(n as int));
        }
    }
    res
}

/// Every link kept under a filter has a target that the filter keeps, and so
/// is never external; with the filter set to actions, every kept target is an
/// action; no more links are kept than given.
pub proof fn lemma_kept_links_kinds(links: Seq<Link>, filter: Option<LinkableKind>)
    ensures
        kept_links(links, filter).len() <= links.len(),
        forall|i: int| 0 <= i < kept_links(links, filter).len() ==>
            keeps_target(#[trigger] kept_links(links, filter)[i].target.kind, filter),
        forall|i: int| 0 <= i < kept_links(links, filter).len() ==>
            (#[trigger] kept_links(links, filter)[i]).target.kind != LinkableKind::External,
        filter == Some(LinkableKind::Action) ==> forall|i: int| 0 <= i < kept_links(links, filter).len() ==>
            (#[trigger] kept_links(links, filter)[i]).target.kind == LinkableKind::Action,
    decreases links.len(),
{
    if links.len() > 0 {
        lemma_kept_links_kinds(links.drop_last(), filter);
    }
}

/// Without a filter, exactly the links to entries and actions are kept, in
/// their order.
pub proof fn lemma_kept_links_unfiltered(links: Seq<Link>)
    ensures
        forall|l: Link| links.contains(l) && l.target.kind != LinkableKind::External
            ==> #[trigger] kept_links(links, None).contains(l),
    decreases links.len(),
{
    if links.len() > 0 {
        lemma_kept_links_unfiltered(links.drop_last());
        assert forall|l: Link| links.contains(l) && l.target.kind != LinkableKind::External
            implies #[trigger] kept_links(links, None).contains(l) by {
            let k = choose|k: int| 0 <= k < links.len() && links[k] == l;
            if k < links.len() - 1 {
                assert(links.drop_last()[k] == l);
                assert(links.drop_last().contains(l));
                let rest = kept_links(links.drop_last(), None);
                assert(rest.contains(l));
                let m = choose|m: int| 0 <= m < rest.len() && rest[m] == l;
                if keeps_target(links.last().target.kind, None) {
                    assert(rest.push(links.last())[m] == l);
                }
            } else {
                assert(links.last() == l);
                let rest = kept_links(links.drop_last(), None);
                assert(rest.push(l)[rest.len() as int] == l);
            }
        }
    }
}

/// The links whose targets were fetched and read as values, each paired
/// with its value, in order; the others are skipped.
pub open spec fn typed_pairs<R>(outcomes: Seq<(Option<R>, Link)>) -> Seq<(R, Link)>
    decreases outcomes.len(),
{
    if outcomes.len() == 0 {
        seq![]
    } else {
        let init = typed_pairs(outcomes.drop_last());
        match outcomes.last().0 {
            Some(r) => init.push((r, outcomes.last().1)),
            None => init,
        }
    }
}

/// For the links whose targets were read as values, in order: the hash of
/// the action that created the link, its target, its author and the value;
/// the others are skipped.
pub open spec fn typed_action_tuples<T>(outcomes: Seq<(Link, Option<T>)>) -> Seq<(HoloHash, AnyLinkableHash, HoloHash, T)>
    decreases outcomes.len(),
{
    if outcomes.len() == 0 {
        seq![]
    } else {
        let init = typed_action_tuples(outcomes.drop_last());
        let link = outcomes.last().0;
        match outcomes.last().1 {
            Some(t) => init.push((link.create_link_hash, link.target, link.author, t)),
            None => init,
        }
    }
}

/// Keep the links whose targets were fetched and read as values, each
/// paired with its value, in order.
pub fn typed_link_pairs<R>(outcomes: Vec<(Option<R>, Link)>) -> (res: Vec<(R, Link)>)
    ensures
        res@ == typed_pairs(outcomes@),
{
    let ghost all = outcomes@;
    assert(all.len() == outcomes.len());
    let mut rest = outcomes;
    let mut res: Vec<(R, Link)> = Vec::new();
    let mut n: usize = 0;
    while rest.len() > 0
        invariant
            n <= all.len() <= usize::MAX,
            rest@ == all.skip(n as int),
            res@ == typed_pairs(all.take(n as int)),
        decreases rest.len(),
    {
        let (outcome, link) = rest.remove(0);
        proof {
            assert(all.take(n + 1).drop_last() =~= all.take(n as int));
            assert(all.take(n + 1).last() == all[n as int]);
        }
        match outcome {
            Some(r) => res.push((r, link)),
            None => {},
        }
        n = n + 1;
        proof {
            assert(rest@ =~= all.skip(n as int));
        }
    }
    assert(all.take(n as int) =~= all);
    res
}

/// For the links whose targets were read as values, in order: the hash of
/// the action that created the link, its target, the link's author and the
/// value.
pub fn typed_action_link_tuples<T>(outcomes: Vec<(Link, Option<T>)>) -> (res: Vec<(HoloHash, AnyLinkableHash, HoloHash, T)>)
    ensures
        res@ == typed_action_tuples(outcomes@),
{
    let ghost all = outcomes@;
    assert(all.len() == outcomes.len());
    let mut rest = outcomes;
    let mut res: Vec<(HoloHash, AnyLinkableHash, HoloHash, T)> = Vec::new();
    let mut n: usize = 0;
    while rest.len() > 0
        invariant
            n <= all.len() <= usize::MAX,
            rest@ == all.skip(n as int),
            res@ == typed_action_tuples(all.take(n as int)),
        decreases rest.len(),
    {
        let (link, outcome) = rest.remove(0);
        proof {
            assert(all.take(n + 1).drop_last() =~= all.take(n as int));
            assert(all.take(n + 1).last() == all[n as int]);
        }
        match outcome {
            Some(t) => res.push((link.create_link_hash, link.target, link.author, t)),
            None => {},
        }
        n = n + 1;
        proof {
            assert(rest@ =~= all.skip(n as int));
        }
    }
    assert(all.take(n as int) =~= all);
    res
}

/// The number of outcomes that carry a value.
pub open spec fn count_values<A, B>(flags: Seq<(Option<A>, B)>) -> nat
    decreases flags.len(),
{
    if flags.len() == 0 {
        0
    } else {
        count_values(flags.drop_last()) + if flags.last().0 is Some { 1nat } else { 0nat }
    }
}

/// Keeping the links that read as values keeps every one of them, each with
/// its own link and in order, and nothing else: no outcomes give no pairs,
/// an outcome with a value adds exactly its pair at the end, one without
/// adds nothing; so there are as many pairs as outcomes with a value.
pub proof fn lemma_typed_pairs_keep_every_value<R>(outcomes: Seq<(Option<R>, Link)>, r: R, l: Link)
    ensures
        typed_pairs(Seq::<(Option<R>, Link)>::empty()) == Seq::<(R, Link)>::empty(),
        typed_pairs(outcomes.push((Some(r), l))) == typed_pairs(outcomes).push((r, l)),
        typed_pairs(outcomes.push((None, l))) == typed_pairs(outcomes),
        typed_pairs(outcomes).len() == count_values(outcomes),
{
    assert(outcomes.push((Some(r), l)).drop_last() =~= outcomes);
    assert(outcomes.push((None::<R>, l)).drop_last() =~= outcomes);
    lemma_typed_pairs_len(outcomes);
}

proof fn lemma_typed_pairs_len<R>(outcomes: Seq<(Option<R>, Link)>)
    ensures
        typed_pairs(outcomes).len() == count_values(outcomes),
    decreases outcomes.len(),
{
    if outcomes.len() > 0 {
        lemma_typed_pairs_len(outcomes.drop_last());
    }
}

/// The outcomes of reading action links with the link first, turned around
/// so that they can be counted like the others.
pub open spec fn value_flags<T>(outcomes: Seq<(Link, Option<T>)>) -> Seq<(Option<T>, Link)> {
    outcomes.map_values(|o: (Link, Option<T>)| (o.1, o.0))
}

/// Every action link whose target reads as a value gives one tuple of its
/// own (create-link hash, target, author, value), in order, and nothing
/// else: no outcomes give no tuples, an outcome with a value adds exactly
/// its tuple at the end, one without adds nothing; so there are as many
/// tuples as outcomes with a value.
pub proof fn lemma_typed_action_tuples_keep_every_value<T>(outcomes: Seq<(Link, Option<T>)>, l: Link, t: T)
    ensures
        typed_action_tuples(Seq::<(Link, Option<T>)>::empty()) == Seq::<(HoloHash, AnyLinkableHash, HoloHash, T)>::empty(),
        typed_action_tuples(outcomes.push((l, Some(t))))
            == typed_action_tuples(outcomes).push((l.create_link_hash, l.target, l.author, t)),
        typed_action_tuples(outcomes.push((l, None))) == typed_action_tuples(outcomes),
        typed_action_tuples(outcomes).len() == count_values(value_flags(outcomes)),
{
    assert(outcomes.push((l, Some(t))).drop_last() =~= outcomes);
    assert(outcomes.push((l, None::<T>)).drop_last() =~= outcomes);
    lemma_typed_action_tuples_len(outcomes);
}

proof fn lemma_typed_action_tuples_len<T>(outcomes: Seq<(Link, Option<T>)>)
    ensures
        typed_action_tuples(outcomes).len() == count_values(value_flags(outcomes)),
    decreases outcomes.len(),
{
    if outcomes.len() > 0 {
        lemma_typed_action_tuples_len(outcomes.drop_last());
        assert(value_flags(outcomes).drop_last() =~= value_flags(outcomes.drop_last()));
    }
}

/// Which links are fetched, one link at a time, in order: no links give
/// none; a link to an external target is never kept; a link to an entry is
/// kept at the end unless the filter asks for actions; a link to an action
/// is kept at the end unless the filter asks for entries.
pub proof fn lemma_kept_links_step(links: Seq<Link>, link: Link, filter: Option<LinkableKind>)
    ensures
        kept_links(Seq::<Link>::empty(), filter) == Seq::<Link>::empty(),
        link.target.kind == LinkableKind::External ==> kept_links(links.push(link), filter) == kept_links(links, filter),
        link.target.kind == LinkableKind::Entry && filter != Some(LinkableKind::Action)
            ==> kept_links(links.push(link), filter) == kept_links(links, filter).push(link),
        link.target.kind == LinkableKind::Entry && filter == Some(LinkableKind::Action)
            ==> kept_links(links.push(link), filter) == kept_links(links, filter),
        link.target.kind == LinkableKind::Action && filter != Some(LinkableKind::Entry)
            ==> kept_links(links.push(link), filter) == kept_links(links, filter).push(link),
        link.target.kind == LinkableKind::Action && filter == Some(LinkableKind::Entry)
            ==> kept_links(links.push(link), filter) == kept_links(links, filter),
{
    assert(links.push(link).drop_last() =~= links);
}

} // verus!
