use zome_utils::{LinkTag, HoloHash, Timestamp, ZomeUtilsError, decimal_u8};
use zome_utils::{LinkableKind, DhtKind, AnyLinkableHash, GetStrategy, Link, ItemLink};
use zome_utils::{into_dht_hash, links_to_GetInputs, itemlinks_from_links, typed_link_pairs, typed_action_link_tuples};
use zome_utils::{RecordEntry, AppEntryDef, EntryType, EntryKind, ActionType, EntryDefId, ActionRef};
use zome_utils::{EntryDetailsView, DetailsView, LatestRecordStep};
use zome_utils::{record_found, present_entry, entry_hash_found, entry_type_found, app_entry_def};
use zome_utils::{defined_in_other_zome, app_entry_name, entry_type_of, linkable_type_name};
use zome_utils::{last_latest_index, first_latest_index, first_latest_update, last_latest_update};
use zome_utils::{latest_action_of_entry, reported_action, latest_record_step};
use zome_utils::{single_record, bytes_equal, position_of_action, typed_creates};
use zome_utils::{EntryOrRecord, LatestEntryStep, latest_entry_step};
use zome_utils::{seconds_since_epoch, first_match_index, zome_index_of, variant_at};

fn hash(b: u8) -> HoloHash {
    HoloHash(vec![b; 39])
}

fn linkable(kind: LinkableKind, b: u8) -> AnyLinkableHash {
    AnyLinkableHash { kind, hash: hash(b) }
}

fn link(kind: LinkableKind, b: u8) -> Link {
    Link {
        author: hash(200),
        base: linkable(LinkableKind::Entry, 201),
        target: linkable(kind, b),
        timestamp: Timestamp(b as i64),
        zome_index: 3,
        link_type: 4,
        tag: LinkTag(vec![b, b]),
        create_link_hash: hash(202),
    }
}

#[test]
fn into_dht_hash_kinds() {
    let e = into_dht_hash(linkable(LinkableKind::Entry, 1)).ok().unwrap();
    assert_eq!(e.kind, DhtKind::Entry);
    assert_eq!(e.hash.0, vec![1; 39]);
    let a = into_dht_hash(linkable(LinkableKind::Action, 2)).ok().unwrap();
    assert_eq!(a.kind, DhtKind::Action);
    assert!(matches!(into_dht_hash(linkable(LinkableKind::External, 3)), Err(ZomeUtilsError::ExternalLinkType)));
}

#[test]
fn links_to_get_inputs_without_filter() {
    let links = vec![link(LinkableKind::Entry, 1), link(LinkableKind::External, 2), link(LinkableKind::Action, 3)];
    let res = links_to_GetInputs(links, None);
    assert_eq!(res.len(), 2);
    assert_eq!(res[0].0.any_dht_hash.kind, DhtKind::Entry);
    assert_eq!(res[0].0.any_dht_hash.hash.0, vec![1; 39]);
    assert_eq!(res[0].0.get_options, GetStrategy::Network);
    assert_eq!(res[0].1.tag.0, vec![1, 1]);
    assert_eq!(res[1].0.any_dht_hash.kind, DhtKind::Action);
    assert_eq!(res[1].1.tag.0, vec![3, 3]);
}

#[test]
fn links_to_get_inputs_with_filters() {
    let links = || vec![link(LinkableKind::Entry, 1), link(LinkableKind::Action, 2), link(LinkableKind::External, 3)];
    let only_actions = links_to_GetInputs(links(), Some(LinkableKind::Action));
    assert_eq!(only_actions.len(), 1);
    assert_eq!(only_actions[0].0.any_dht_hash.kind, DhtKind::Action);
    let only_entries = links_to_GetInputs(links(), Some(LinkableKind::Entry));
    assert_eq!(only_entries.len(), 1);
    assert_eq!(only_entries[0].0.any_dht_hash.kind, DhtKind::Entry);
    let external_filter = links_to_GetInputs(links(), Some(LinkableKind::External));
    assert_eq!(external_filter.len(), 2);
    assert_eq!(links_to_GetInputs(vec![], None).len(), 0);
}

#[test]
fn item_links_from_links() {
    let item = ItemLink::from(link(LinkableKind::Action, 5));
    assert_eq!(item.item_hash.kind, LinkableKind::Action);
    assert_eq!(item.item_hash.hash.0, vec![5; 39]);
    assert_eq!(item.tag, vec![5, 5]);
    assert_eq!(item.zome_index, 3);
    assert_eq!(item.link_index, 4);
    let items = itemlinks_from_links(vec![link(LinkableKind::Entry, 1), link(LinkableKind::External, 2)]);
    assert_eq!(items.len(), 2);
    assert_eq!(items[1].item_hash.kind, LinkableKind::External);
    assert_eq!(items[1].tag, vec![2, 2]);
}

#[test]
fn found_or_error() {
    assert_eq!(record_found(Some(7)).ok(), Some(7));
    assert!(matches!(record_found::<u8>(None), Err(ZomeUtilsError::NoRecord)));
    assert_eq!(present_entry(RecordEntry::Present("e")).ok(), Some("e"));
    assert!(matches!(present_entry::<u8>(RecordEntry::Hidden), Err(ZomeUtilsError::NoEntry)));
    assert!(matches!(present_entry::<u8>(RecordEntry::NA), Err(ZomeUtilsError::NoEntry)));
    assert!(matches!(present_entry::<u8>(RecordEntry::NotStored), Err(ZomeUtilsError::NoEntry)));
    assert_eq!(entry_hash_found(Some(1u8)).ok(), Some(1));
    assert!(matches!(entry_hash_found::<u8>(None), Err(ZomeUtilsError::NoEntryHash)));
    assert_eq!(entry_type_found(Some(2u8)).ok(), Some(2));
    assert!(matches!(entry_type_found::<u8>(None), Err(ZomeUtilsError::NoEntryAtHash)));
}

#[test]
fn app_entry_definitions() {
    let def = AppEntryDef { entry_index: 1, zome_index: 2, public: true };
    assert_eq!(app_entry_def(EntryType::App(def)).ok(), Some(def));
    assert!(matches!(app_entry_def(EntryType::CapGrant), Err(ZomeUtilsError::NoAppEntry)));
    assert!(defined_in_other_zome(0, &def));
    assert!(!defined_in_other_zome(2, &def));
    let defs = vec![EntryDefId::CapClaim, EntryDefId::App("profile".to_string())];
    assert_eq!(app_entry_name(&defs, 1).ok(), Some("profile".to_string()));
    assert!(matches!(app_entry_name(&defs, 0), Err(ZomeUtilsError::NotAnAppEntry)));
}

#[test]
fn entry_types_of_kinds() {
    assert_eq!(entry_type_of(EntryKind::Agent), Some(EntryType::AgentPubKey));
    assert_eq!(entry_type_of(EntryKind::CapClaim), Some(EntryType::CapClaim));
    assert_eq!(entry_type_of(EntryKind::CapGrant), Some(EntryType::CapGrant));
    assert_eq!(entry_type_of(EntryKind::App), None);
}

#[test]
fn linkable_type_names() {
    assert_eq!(linkable_type_name(LinkableKind::External, None).ok(), Some("External".to_string()));
    assert!(matches!(linkable_type_name(LinkableKind::Entry, None), Err(ZomeUtilsError::NoRecord)));
    let def = AppEntryDef { entry_index: 0, zome_index: 0, public: false };
    assert_eq!(linkable_type_name(LinkableKind::Entry, Some((Some(EntryType::App(def)), ActionType::Create))).ok(), Some("App".to_string()));
    assert_eq!(linkable_type_name(LinkableKind::Entry, Some((Some(EntryType::AgentPubKey), ActionType::Create))).ok(), Some("AgentPubKey".to_string()));
    assert_eq!(linkable_type_name(LinkableKind::Action, Some((None, ActionType::CreateLink))).ok(), Some("CreateLink".to_string()));
    assert_eq!(linkable_type_name(LinkableKind::Action, Some((None, ActionType::InitZomesComplete))).ok(), Some("InitZomesComplete".to_string()));
}

#[test]
fn latest_indices() {
    let ts = vec![5i64, 9, 3, 9, 1];
    assert_eq!(last_latest_index(&ts), 3);
    assert_eq!(first_latest_index(&ts), 1);
    assert_eq!(last_latest_index(&vec![4]), 0);
    assert_eq!(first_latest_index(&vec![-4, -5]), 0);
    let distinct = vec![3i64, 10, 7];
    assert_eq!(last_latest_index(&distinct), first_latest_index(&distinct));
}

#[test]
fn latest_updates() {
    let updates = vec![(5i64, "a"), (9, "b"), (9, "c"), (2, "d")];
    assert_eq!(first_latest_update(updates.clone()), Some("b"));
    assert_eq!(last_latest_update(updates), Some("c"));
    assert_eq!(first_latest_update::<u8>(vec![]), None);
    assert_eq!(last_latest_update::<u8>(vec![]), None);
}

#[test]
fn latest_action_of_entries() {
    assert_eq!(latest_action_of_entry::<u8>(None), None);
    let dead = EntryDetailsView { live: false, first_action: Some(1u8), updates: vec![(3, 2)] };
    assert_eq!(latest_action_of_entry(Some(dead)), None);
    let fresh = EntryDetailsView { live: true, first_action: Some(1u8), updates: vec![] };
    assert_eq!(latest_action_of_entry(Some(fresh)), Some(1));
    let updated = EntryDetailsView { live: true, first_action: Some(1u8), updates: vec![(3, 2), (8, 4), (8, 5), (1, 6)] };
    assert_eq!(latest_action_of_entry(Some(updated)), Some(5));
}

#[test]
fn reported_actions() {
    assert_eq!(reported_action(ActionRef::Update(7u8), 9), 7);
    assert_eq!(reported_action(ActionRef::Create, 9u8), 9);
}

#[test]
fn latest_record_steps() {
    assert!(matches!(latest_record_step::<u8, u8>(None), Err(ZomeUtilsError::RecordNotFound)));
    assert!(matches!(latest_record_step::<u8, u8>(Some(DetailsView::Entry)), Err(ZomeUtilsError::MalformedDetails)));
    match latest_record_step(Some(DetailsView::Record { record: 1u8, updates: vec![2u8, 3] })) {
        Ok(LatestRecordStep::Follow(h)) => assert_eq!(h, 3),
        _ => panic!("expected to follow the last update"),
    }
    match latest_record_step(Some(DetailsView::Record { record: 1u8, updates: Vec::<u8>::new() })) {
        Ok(LatestRecordStep::Done(r)) => assert_eq!(r, 1),
        _ => panic!("expected the record"),
    }
}

#[test]
fn single_records() {
    assert_eq!(single_record(vec![4u8]).ok(), Some(4));
    assert!(matches!(single_record::<u8>(vec![]), Err(ZomeUtilsError::RecordNotFoundAtEntryHash)));
    assert!(matches!(single_record(vec![1u8, 2]), Err(ZomeUtilsError::RecordNotFoundAtEntryHash)));
}

#[test]
fn positions_of_actions() {
    assert!(bytes_equal(&vec![1, 2], &vec![1, 2]));
    assert!(!bytes_equal(&vec![1, 2], &vec![1, 3]));
    assert!(!bytes_equal(&vec![1], &vec![1, 2]));
    let addresses = vec![hash(1), hash(2), hash(2)];
    assert_eq!(position_of_action(&addresses, &hash(2)).ok(), Some(1));
    assert!(matches!(position_of_action(&addresses, &hash(3)), Err(ZomeUtilsError::RecordNotFoundAtActionHash)));
}

#[test]
fn seconds_of_timestamps() {
    assert_eq!(seconds_since_epoch(Timestamp(1_700_000_000_999_999)), 1_700_000_000);
    assert_eq!(seconds_since_epoch(Timestamp(999_999)), 0);
    assert_eq!(seconds_since_epoch(Timestamp(-1_500_000)), (-1i64) as u64);
}

#[test]
fn variant_indices() {
    assert_eq!(first_match_index(&vec![false, true, true]).ok(), Some(1));
    assert!(matches!(first_match_index(&vec![false, false]), Err(ZomeUtilsError::UnknownVariant)));
    let mut many = vec![false; 300];
    many[255] = true;
    assert_eq!(first_match_index(&many).ok(), Some(255));
    let names = vec!["profiles".to_string(), "links".to_string()];
    assert_eq!(zome_index_of(&names, &"links".to_string()).ok(), Some(1));
    assert!(matches!(zome_index_of(&names, &"nope".to_string()), Err(ZomeUtilsError::UnknownZome)));
    assert_eq!(variant_at(vec!['a', 'b', 'c'], 2).ok(), Some('c'));
    assert!(matches!(variant_at(vec!['a'], 1), Err(ZomeUtilsError::UnknownEntryDefIndex(1))));
}

#[test]
fn error_reasons() {
    assert_eq!(ZomeUtilsError::NoRecord.reason(), "no Record found at given hash");
    assert_eq!(ZomeUtilsError::TagNotUtf8.reason(), "Failed to parse utf8 string from link tag");
    assert_eq!(ZomeUtilsError::Deserialize("bad".to_string()).reason(), "bad");
    assert_eq!(ZomeUtilsError::UnknownEntryDefIndex(7).reason(), "Unknown EntryDefIndex: 7");
    assert_eq!(ZomeUtilsError::UnknownEntryDefIndex(255).reason(), "Unknown EntryDefIndex: 255");
    assert_eq!(ZomeUtilsError::ExternalLinkType.reason(), "AnyDhtHash is of an external link type");
    assert_eq!(ZomeUtilsError::RecordNotFoundAtActionHash.reason(), "Record not found at given ActionHash");
    assert_eq!(decimal_u8(0), "0");
    assert_eq!(decimal_u8(40), "40");
    assert_eq!(decimal_u8(109), "109");
}

#[test]
fn typed_link_pairs_skip_failed_reads() {
    let outcomes = vec![(Some(10u8), link(LinkableKind::Entry, 1)), (None, link(LinkableKind::Entry, 2)), (Some(30u8), link(LinkableKind::Action, 3))];
    let pairs = typed_link_pairs(outcomes);
    assert_eq!(pairs.len(), 2);
    assert_eq!(pairs[0].0, 10);
    assert_eq!(pairs[0].1.tag.0, vec![1, 1]);
    assert_eq!(pairs[1].0, 30);
    assert_eq!(pairs[1].1.tag.0, vec![3, 3]);
}

#[test]
fn typed_action_link_tuples_carry_link_author() {
    let outcomes = vec![(link(LinkableKind::Action, 1), None), (link(LinkableKind::Action, 2), Some('x'))];
    let tuples = typed_action_link_tuples(outcomes);
    assert_eq!(tuples.len(), 1);
    assert_eq!(tuples[0].0 .0, vec![202; 39]);
    assert_eq!(tuples[0].1.hash.0, vec![2; 39]);
    assert_eq!(tuples[0].1.kind, LinkableKind::Action);
    assert_eq!(tuples[0].2 .0, vec![200; 39]);
    assert_eq!(tuples[0].3, 'x');
}

#[test]
fn latest_update_does_not_depend_on_order() {
    let a = vec![(5i64, 'a'), (9, 'b'), (2, 'c')];
    let b = vec![(2i64, 'c'), (5, 'a'), (9, 'b')];
    assert_eq!(first_latest_update(a.clone()), first_latest_update(b.clone()));
    assert_eq!(last_latest_update(a), last_latest_update(b));
}

#[test]
fn variant_index_then_variant_gives_it_back() {
    let variants = vec!['p', 'q', 'r'];
    let matches: Vec<bool> = variants.iter().map(|v| *v == 'q').collect();
    let i = first_match_index(&matches).ok().unwrap();
    assert_eq!(variant_at(variants, i).ok(), Some('q'));
}

#[test]
fn typed_creates_collects_until_first_failure() {
    let ok: Vec<(u8, Option<&str>, Result<u32, String>)> =
        vec![(1, Some("c1"), Ok(10)), (2, Some("c2"), Ok(20))];
    assert_eq!(typed_creates(ok), Ok(vec![(1, "c1", 10), (2, "c2", 20)]));
    let empty: Vec<(u8, Option<&str>, Result<u32, String>)> = vec![];
    assert_eq!(typed_creates(empty), Ok(vec![]));
    let failing: Vec<(u8, Option<&str>, Result<u32, String>)> = vec![
        (1, Some("c1"), Ok(10)),
        (2, Some("c2"), Err("first".to_string())),
        (3, None, Err("second".to_string())),
    ];
    assert_eq!(typed_creates(failing), Err("first".to_string()));
}

#[test]
fn latest_entry_steps() {
    let none: Option<EntryOrRecord<&str, u8>> = None;
    assert!(matches!(latest_entry_step(none), LatestEntryStep::NoEntry));
    assert!(matches!(latest_entry_step(Some(EntryOrRecord::<&str, u8>::Record)), LatestEntryStep::NoEntry));
    let plain = EntryOrRecord::Entry { entry: "e", updates: Vec::<(i64, u8)>::new() };
    assert!(matches!(latest_entry_step(Some(plain)), LatestEntryStep::Current("e")));
    let updated = EntryOrRecord::Entry { entry: "e", updates: vec![(5, 1u8), (9, 2), (9, 3), (-4, 4)] };
    assert!(matches!(latest_entry_step(Some(updated)), LatestEntryStep::Updated(2)));
}

#[test]
fn seconds_round_toward_zero() {
    assert_eq!(seconds_since_epoch(Timestamp(-999_999)), 0);
    assert_eq!(seconds_since_epoch(Timestamp(-1_000_000)), (-1i64) as u64);
    assert_eq!(seconds_since_epoch(Timestamp(i64::MIN)), (i64::MIN / 1_000_000) as u64);
    assert_eq!(seconds_since_epoch(Timestamp(i64::MAX)), (i64::MAX / 1_000_000) as u64);
}
