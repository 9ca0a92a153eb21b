use vstd::prelude::*;
use crate::error::ZomeUtilsError;
use crate::links::LinkableKind;

verus! {

/// What a record holds in place of its entry.
pub enum RecordEntry<E> {
    /// The entry itself.
    Present(E),
    /// The entry is private and not shown.
    Hidden,
    /// The action has no entry.
    NA,
    /// The entry is not stored here.
    NotStored,
}

/// The definition of an app entry type: its index within its zome, the
/// zome's index, and whether entries of the type are public.
#[derive(Clone, Copy, Debug, PartialEq, Eq, Structural)]
pub struct AppEntryDef {
    pub entry_index: u8,
    pub zome_index: u8,
    pub public: bool,
}

/// The type of an entry.
#[derive(Clone, Copy, Debug, PartialEq, Eq, Structural)]
pub enum EntryType {
    AgentPubKey,
    App(AppEntryDef),
    CapClaim,
    CapGrant,
}

/// The variant of an entry.
#[derive(Clone, Copy, Debug, PartialEq, Eq, Structural)]
pub enum EntryKind {
    Agent,
    App,
    CounterSign,
    CapClaim,
    CapGrant,
}

/// The type of an action.
#[derive(Clone, Copy, Debug, PartialEq, Eq, Structural)]
pub enum ActionType {
    Dna,
    AgentValidationPkg,
    InitZomesComplete,
    CreateLink,
    DeleteLink,
    OpenChain,
    CloseChain,
    Create,
    Update,
    Delete,
}

/// The identifier of an entry definition.
pub enum EntryDefId {
    App(String),
    CapClaim,
    CapGrant,
}

/// What an action says of the entry it concerns: a create, an update of an
/// earlier action, or another kind of action.
pub enum ActionRef<H> {
    Create,
    Update(H),
    Other,
}

/// The details that the conductor holds of an entry: whether it is live, its
/// actions' hashes, and its updates with their timestamps.
pub struct EntryDetailsView<H> {
    pub live: bool,
    pub first_action: Option<H>,
    pub updates: Vec<(i64, H)>,
}

/// The details that the conductor holds at a hash: those of an entry, or a
/// record with the hashes of its updates.
pub enum DetailsView<R, H> {
    Entry,
    Record { record: R, updates: Vec<H> },
}

/// The next step in following a record's updates: the record is the latest,
/// or the given update is to be followed.
pub enum LatestRecordStep<R, H> {
    Done(R),
    Follow(H),
}

/// The details that the conductor holds at an entry's hash: those of the
/// entry, with its updates and their timestamps, or those of a record.
pub enum EntryOrRecord<E, U> {
    Entry { entry: E, updates: Vec<(i64, U)> },
    Record,
}

/// Where the latest version of an entry is to be read: there is no entry,
/// the entry itself is the latest, or the given update holds it.
pub enum LatestEntryStep<E, U> {
    NoEntry,
    Current(E),
    Updated(U),
}

/// The record, where one was found.
pub fn record_found<R>(maybe_record: Option<R>) -> (res: Result<R, ZomeUtilsError>)
    ensures
        maybe_record matches Some(r) ==> res == Ok::<R, ZomeUtilsError>(r),
        maybe_record is None ==> res matches Err(ZomeUtilsError::NoRecord),
{
    match maybe_record {
        Some(r) => Ok(r),
        None => Err(ZomeUtilsError::NoRecord),
    }
}

/// The entry that a record holds, where it holds one.
pub fn present_entry<E>(entry: RecordEntry<E>) -> (res: Result<E, ZomeUtilsError>)
    ensures
        entry matches RecordEntry::Present(e) ==> res == Ok::<E, ZomeUtilsError>(e),
        !(entry is Present) ==> res matches Err(ZomeUtilsError::NoEntry),
{
    match entry {
        RecordEntry::Present(e) => Ok(e),
        _ => Err(ZomeUtilsError::NoEntry),
    }
}

/// The entry hash of a record's action, where it has one.
pub fn entry_hash_found<H>(entry_hash: Option<H>) -> (res: Result<H, ZomeUtilsError>)
    ensures
        entry_hash matches Some(h) ==> res == Ok::<H, ZomeUtilsError>(h),
        entry_hash is None ==> res matches Err(ZomeUtilsError::NoEntryHash),
{
    match entry_hash {
        Some(h) => Ok(h),
        None => Err(ZomeUtilsError::NoEntryHash),
    }
}

/// The entry type of a record's action, where it has one.
pub fn entry_type_found<T>(entry_type: Option<T>) -> (res: Result<T, ZomeUtilsError>)
    ensures
        entry_type matches Some(t) ==> res == Ok::<T, ZomeUtilsError>(t),
        entry_type is None ==> res matches Err(ZomeUtilsError::NoEntryAtHash),
{
    match entry_type {
        Some(t) => Ok(t),
        None => Err(ZomeUtilsError::NoEntryAtHash),
    }
}

/// The app entry definition of an entry type, where it is an app entry type.
pub fn app_entry_def(entry_type: EntryType) -> (res: Result<AppEntryDef, ZomeUtilsError>)
    ensures
        entry_type matches EntryType::App(def) ==> res == Ok::<AppEntryDef, ZomeUtilsError>(def),
        !(entry_type is App) ==> res matches Err(ZomeUtilsError::NoAppEntry),
{
    match entry_type {
        EntryType::App(def) => Ok(def),
        _ => Err(ZomeUtilsError::NoAppEntry),
    }
}

/// Whether an app entry definition is to be read from another zome than the
/// current one.
pub fn defined_in_other_zome(this_zome: u8, def: &AppEntryDef) -> (res: bool)
    ensures
        res == (this_zome != def.zome_index),
{
    this_zome != def.zome_index
}

/// The app entry name at the given index of a zome's entry definitions.
pub fn app_entry_name(entry_defs: &Vec<EntryDefId>, entry_index: u8) -> (res: Result<String, ZomeUtilsError>)
    requires
        (entry_index as int) < entry_defs@.len(),
    ensures
        entry_defs@[entry_index as int] matches EntryDefId::App(name) ==> (res matches Ok(n) && n@ == name@),
        !(entry_defs@[entry_index as int] is App) ==> res matches Err(ZomeUtilsError::NotAnAppEntry),
{
    match &entry_defs[entry_index as usize] {
        EntryDefId::App(name) => Ok(String::from_str(name.as_str())),
        _ => Err(ZomeUtilsError::NotAnAppEntry),
    }
}

/// The entry type that an entry's variant determines; `None` for an app
/// entry, whose type must be looked up at its hash.
pub fn entry_type_of(kind: EntryKind) -> (res: Option<EntryType>)
    requires
        kind != EntryKind::CounterSign,
    ensures
        kind == EntryKind::Agent ==> res == Some(EntryType::AgentPubKey),
        kind == EntryKind::CapClaim ==> res == Some(EntryType::CapClaim),
        kind == EntryKind::CapGrant ==> res == Some(EntryType::CapGrant),
        kind == EntryKind::App ==> res is None,
{
    match kind {
        EntryKind::Agent => Some(EntryType::AgentPubKey),
        EntryKind::CapClaim => Some(EntryType::CapClaim),
        EntryKind::CapGrant => Some(EntryType::CapGrant),
        _ => None,
    }
}

/// The name of an entry type.
pub open spec fn entry_type_name(entry_type: EntryType) -> Seq<char> {
    match entry_type {
        EntryType::AgentPubKey => "AgentPubKey"@,
        EntryType::CapClaim => "CapClaim"@,
        EntryType::CapGrant => "CapGrant"@,
        EntryType::App(_) => "App"@,
    }
}

/// The name of an action type.
pub open spec fn action_type_name(action_type: ActionType) -> Seq<char> {
    match action_type {
        ActionType::Dna => "Dna"@,
        ActionType::AgentValidationPkg => "AgentValidationPkg"@,
        ActionType::InitZomesComplete => "InitZomesComplete"@,
        ActionType::OpenChain => "OpenChain"@,
        ActionType::CloseChain => "CloseChain"@,
        ActionType::Create => "Create"@,
        ActionType::Update => "Update"@,
        ActionType::Delete => "Delete"@,
        ActionType::CreateLink => "CreateLink"@,
        ActionType::DeleteLink => "DeleteLink"@,
    }
}

/// The name of what a linkable hash points at: `External` for an external
/// hash; else, from the record found at it, the name of its entry type where
/// its action has one, or else that of its action type.
pub fn linkable_type_name(kind: LinkableKind, record: Option<(Option<EntryType>, ActionType)>) -> (res: Result<String, ZomeUtilsError>)
    ensures
        kind == LinkableKind::External ==> (res matches Ok(s) && s@ == "External"@),
        kind != LinkableKind::External && record is None ==> res matches Err(ZomeUtilsError::NoRecord),
        kind != LinkableKind::External ==> (record matches Some((Some(et), _)) ==> (res matches Ok(s) && s@ == entry_type_name(et))),
        kind != LinkableKind::External ==> (record matches Some((None, at)) ==> (res matches Ok(s) && s@ == action_type_name(at))),
{
    if kind == LinkableKind::External {
        return Ok(String::from_str("External"));
    }
    let (entry_type, action_type) = match record {
        Some(r) => r,
        None => return Err(ZomeUtilsError::NoRecord),
    };
    if let Some(et) = entry_type {
        let name = match et {
            EntryType::AgentPubKey => "AgentPubKey",
            EntryType::CapClaim => "CapClaim",
            EntryType::CapGrant => "CapGrant",
            EntryType::App(_) => "App",
        };
        return Ok(String::from_str(name));
    }
    let name = match action_type {
        ActionType::Dna => "Dna",
        ActionType::AgentValidationPkg => "AgentValidationPkg",
        ActionType::InitZomesComplete => "InitZomesComplete",
        ActionType::OpenChain => "OpenChain",
        ActionType::CloseChain => "CloseChain",
        ActionType::Create => "Create",
        ActionType::Update => "Update",
        ActionType::Delete => "Delete",
        ActionType::CreateLink => "CreateLink",
        ActionType::DeleteLink => "DeleteLink",
    };
    Ok(String::from_str(name))
}

/// True when `i` holds a greatest timestamp and every later one is smaller:
/// the last of the latest.
pub open spec fn is_last_latest(timestamps: Seq<i64>, i: int) -> bool {
    &&& 0 <= i < timestamps.len()
    &&& forall|j: int| 0 <= j < timestamps.len() ==> #[trigger] timestamps[j] <= timestamps[i]
    &&& forall|j: int| i < j < timestamps.len() ==> #[trigger] timestamps[j] < timestamps[i]
}

/// True when `i` holds a greatest timestamp and every earlier one is
/// smaller: the first of the latest.
pub open spec fn is_first_latest(timestamps: Seq<i64>, i: int) -> bool {
    &&& 0 <= i < timestamps.len()
    &&& forall|j: int| 0 <= j < timestamps.len() ==> #[trigger] timestamps[j] <= timestamps[i]
    &&& forall|j: int| 0 <= j < i ==> #[trigger] timestamps[j] < timestamps[i]
}

/// The position of the latest timestamp; among equal latest ones, the last.
/// This is the last element after a stable sort by timestamp.
pub fn last_latest_index(timestamps: &Vec<i64>) -> (i: usize)
    requires
        timestamps@.len() > 0,
    ensures
        is_last_latest(timestamps@, i as int),
{
    let mut best: usize = 0;
    let mut k: usize = 1;
    while k < timestamps.len()
        invariant
            1 <= k <= timestamps@.len(),
            best < k,
            forall|j: int| 0 <= j < k ==> #[trigger] timestamps@[j] <= timestamps@[best as int],
            forall|j: int| best < j < k ==> #[trigger] timestamps@[j] < timestamps@[best as int],
        decreases timestamps@.len() - k,
    {
        if timestamps[k] >= timestamps[best] {
            best = k;
        }
        k = k + 1;
    }
    best
}

/// The position of the latest timestamp; among equal latest ones, the first.
/// This is where a left fold that keeps a later element only when it is
/// strictly newer ends.
pub fn first_latest_index(timestamps: &Vec<i64>) -> (i: usize)
    requires
        timestamps@.len() > 0,
    ensures
        is_first_latest(timestamps@, i as int),
{
    let mut best: usize = 0;
    let mut k: usize = 1;
    while k < timestamps.len()
        invariant
            1 <= k <= timestamps@.len(),
            best < k,
            forall|j: int| 0 <= j < k ==> #[trigger] timestamps@[j] <= timestamps@[best as int],
            forall|j: int| 0 <= j < best ==> #[trigger] timestamps@[j] < timestamps@[best as int],
        decreases timestamps@.len() - k,
    {
        if timestamps[k] > timestamps[best] {
            best = k;
        }
        k = k + 1;
    }
    best
}

/// The timestamps of a list of timestamped items.
pub open spec fn timestamps_of<U>(items: Seq<(i64, U)>) -> Seq<i64> {
    items.map_values(|item: (i64, U)| item.0)
}

fn timestamps<U>(items: &Vec<(i64, U)>) -> (res: Vec<i64>)
    ensures
        res@ == timestamps_of(items@),
{
    let mut res: Vec<i64> = Vec::new();
    let mut k: usize = 0;
    while k < items.len()
        invariant
            k <= items@.len(),
            res@ == timestamps_of(items@.take(k as int)),
        decreases items@.len() - k,
    {
        res.push(items[k].0);
        k = k + 1;
        assert(timestamps_of(items@.take(k as int)) =~= timestamps_of(items@.take(k - 1)).push(items@[k - 1].0));
    }
    assert(items@.take(k as int) =~= items@);
    res
}

/// The latest of timestamped updates, the first among equally latest ones;
/// `None` where there are none.
pub fn first_latest_update<U>(updates: Vec<(i64, U)>) -> (res: Option<U>)
    ensures
        updates@.len() == 0 ==> res is None,
        updates@.len() > 0 ==> exists|i: int| is_first_latest(timestamps_of(updates@), i) && res == Some(updates@[i].1),
{
    if updates.len() == 0 {
        return None;
    }
    let ts = timestamps(&updates);
    let i = first_latest_index(&ts);
    let mut updates = updates;
    let ghost all = updates@;
    let (_, u) = updates.remove(i);
    assert(is_first_latest(timestamps_of(all), i as int));
    Some(u)
}

/// The latest of timestamped updates, the last among equally latest ones;
/// `None` where there are none.
pub fn last_latest_update<U>(updates: Vec<(i64, U)>) -> (res: Option<U>)
    ensures
        updates@.len() == 0 ==> res is None,
        updates@.len() > 0 ==> exists|i: int| is_last_latest(timestamps_of(updates@), i) && res == Some(updates@[i].1),
{
    if updates.len() == 0 {
        return None;
    }
    let ts = timestamps(&updates);
    let i = last_latest_index(&ts);
    let mut updates = updates;
    let ghost all = updates@;
    let (_, u) = updates.remove(i);
    assert(is_last_latest(timestamps_of(all), i as int));
    Some(u)
}

/// Where to read the latest version of an entry: nowhere where no details
/// were found or they are a record's; the entry itself where it has no
/// updates; else its latest update, the first among equally latest.
pub fn latest_entry_step<E, U>(details: Option<EntryOrRecord<E, U>>) -> (res: LatestEntryStep<E, U>)
    ensures
        details is None ==> res is NoEntry,
        details matches Some(EntryOrRecord::Record) ==> res is NoEntry,
        details matches Some(EntryOrRecord::Entry { entry, updates }) ==> {
            &&& updates@.len() == 0 ==> res == LatestEntryStep::<E, U>::Current(entry)
            &&& updates@.len() > 0 ==> exists|i: int|
                is_first_latest(timestamps_of(updates@), i) && res == LatestEntryStep::<E, U>::Updated(#[trigger] updates@[i].1)
        },
{
    match details {
        Some(EntryOrRecord::Entry { entry, updates }) => {
            match first_latest_update(updates) {
                Some(u) => LatestEntryStep::Updated(u),
                None => LatestEntryStep::Current(entry),
            }
        },
        _ => LatestEntryStep::NoEntry,
    }
}

/// The action to read for the latest version of an entry: none where there
/// are no entry details or the entry is not live; its first action where it
/// has no updates; else its latest update, the last among equally latest.
pub fn latest_action_of_entry<H>(details: Option<EntryDetailsView<H>>) -> (res: Option<H>)
    requires
        details matches Some(d) ==> (d.live && d.updates@.len() == 0 ==> d.first_action is Some),
    ensures
        details is None ==> res is None,
        details matches Some(d) ==> {
            &&& !d.live ==> res is None
            &&& d.live && d.updates@.len() == 0 ==> res == d.first_action
            &&& d.live && d.updates@.len() > 0 ==> exists|i: int|
                is_last_latest(timestamps_of(d.updates@), i) && res == Some(d.updates@[i].1)
        },
{
    match details {
        None => None,
        Some(d) => {
            if !d.live {
                None
            } else if d.updates.len() == 0 {
                d.first_action
            } else {
                last_latest_update(d.updates)
            }
        },
    }
}

/// The action that a latest record is reported under: for an update, the
/// action that it updates; for a create, the record's own action.
pub fn reported_action<H>(action: ActionRef<H>, own_address: H) -> (res: H)
    requires
        !(action is Other),
    ensures
        action matches ActionRef::Update(updated) ==> res == updated,
        action is Create ==> res == own_address,
{
    match action {
        ActionRef::Update(updated) => updated,
        _ => own_address,
    }
}

/// One step in following a record's updates to its latest version: fail
/// where no details were found or they are an entry's; else follow the last
/// update, or stop at the record where there is none.
pub fn latest_record_step<R, H>(details: Option<DetailsView<R, H>>) -> (res: Result<LatestRecordStep<R, H>, ZomeUtilsError>)
    ensures
        details is None ==> res matches Err(ZomeUtilsError::RecordNotFound),
        details matches Some(DetailsView::Entry) ==> res matches Err(ZomeUtilsError::MalformedDetails),
        details matches Some(DetailsView::Record { record, updates }) ==> {
            &&& updates@.len() == 0 ==> res == Ok::<LatestRecordStep<R, H>, ZomeUtilsError>(LatestRecordStep::Done(record))
            &&& updates@.len() > 0 ==> res == Ok::<LatestRecordStep<R, H>, ZomeUtilsError>(LatestRecordStep::Follow(updates@.last()))
        },
{
    match details {
        None => Err(ZomeUtilsError::RecordNotFound),
        Some(DetailsView::Entry) => Err(ZomeUtilsError::MalformedDetails),
        Some(DetailsView::Record { record, updates }) => {
            let mut updates = updates;
            match updates.pop() {
                Some(last) => Ok(LatestRecordStep::Follow(last)),
                None => Ok(LatestRecordStep::Done(record)),
            }
        },
    }
}

/// The two ways of choosing the latest update agree on its timestamp, and
/// where no two updates share a timestamp they choose the same update.
pub proof fn lemma_latest_choices_agree(timestamps: Seq<i64>, first: int, last: int)
    requires
        is_first_latest(timestamps, first),
        is_last_latest(timestamps, last),
    ensures
        timestamps[first] == timestamps[last],
        first <= last,
        (forall|a: int, b: int| 0 <= a < b < timestamps.len() ==> timestamps[a] != timestamps[b]) ==> first == last,
{
    assert(timestamps[first] <= timestamps[last]);
    assert(timestamps[last] <= timestamps[first]);
}

/// Where no two updates share a timestamp, the latest update does not
/// depend on the order in which the updates are listed: any choice of the
/// latest (first or last among equals) over two listings of the same updates
/// picks the same update.
pub proof fn lemma_latest_update_order_free<U>(a: Seq<(i64, U)>, b: Seq<(i64, U)>, i: int, j: int)
    requires
        a.to_multiset() == b.to_multiset(),
        forall|x: int, y: int| 0 <= x < y < a.len() ==> a[x].0 != a[y].0,
        is_first_latest(timestamps_of(a), i) || is_last_latest(timestamps_of(a), i),
        is_first_latest(timestamps_of(b), j) || is_last_latest(timestamps_of(b), j),
    ensures
        a[i] == b[j],
{
    broadcast use vstd::seq_lib::group_to_multiset_ensures;
    let ta = timestamps_of(a);
    let tb = timestamps_of(b);
    assert(a.to_multiset().count(a[i]) > 0) by {
        assert(a.contains(a[i]));
    }
    assert(b.contains(a[i]));
    let k = choose|k: int| 0 <= k < b.len() && b[k] == a[i];
    assert(tb[k] == ta[i]);
    assert(tb[k] <= tb[j]);
    assert(b.contains(b[j]));
    assert(b.to_multiset().count(b[j]) > 0);
    assert(a.to_multiset().count(b[j]) > 0);
    assert(a.contains(b[j]));
    let m = choose|m: int| 0 <= m < a.len() && a[m] == b[j];
    assert(ta[m] == tb[j]);
    assert(ta[m] <= ta[i]);
    if m != i {
        if m < i {
            assert(a[m].0 != a[i].0);
        } else {
            assert(a[i].0 != a[m].0);
        }
    }
}

/// Each action type is named by its variant's own name written out, and no
/// two action types share a name.
pub proof fn lemma_action_type_names(a: ActionType, b: ActionType)
    ensures
        action_type_name(ActionType::Dna) == "Dna"@,
        action_type_name(ActionType::AgentValidationPkg) == "AgentValidationPkg"@,
        action_type_name(ActionType::InitZomesComplete) == "InitZomesComplete"@,
        action_type_name(ActionType::OpenChain) == "OpenChain"@,
        action_type_name(ActionType::CloseChain) == "CloseChain"@,
        action_type_name(ActionType::Create) == "Create"@,
        action_type_name(ActionType::Update) == "Update"@,
        action_type_name(ActionType::Delete) == "Delete"@,
        action_type_name(ActionType::CreateLink) == "CreateLink"@,
        action_type_name(ActionType::DeleteLink) == "DeleteLink"@,
        action_type_name(a) == action_type_name(b) ==> a == b,
{
    reveal_strlit("Dna");
    reveal_strlit("AgentValidationPkg");
    reveal_strlit("InitZomesComplete");
    reveal_strlit("OpenChain");
    reveal_strlit("CloseChain");
    reveal_strlit("Create");
    reveal_strlit("Update");
    reveal_strlit("Delete");
    reveal_strlit("CreateLink");
    reveal_strlit("DeleteLink");
    if action_type_name(a) == action_type_name(b) {
        let na = action_type_name(a);
        let nb = action_type_name(b);
        assert(na.len() == nb.len());
        assert(na[0] == nb[0]);
        assert(na.len() < 4 || na[3] == nb[3]);
        assert(na.len() < 7 || na[6] == nb[6]);
    }
}

/// Each non-app entry type is named by its variant's own name, app entries
/// by `App`, and no two kinds share a name.
pub proof fn lemma_entry_type_names(a: EntryType, b: EntryType)
    ensures
        entry_type_name(EntryType::AgentPubKey) == "AgentPubKey"@,
        entry_type_name(EntryType::CapClaim) == "CapClaim"@,
        entry_type_name(EntryType::CapGrant) == "CapGrant"@,
        a is App ==> entry_type_name(a) == "App"@,
        entry_type_name(a) == entry_type_name(b) ==> (a is App && b is App) || a == b,
{
    reveal_strlit("AgentPubKey");
    reveal_strlit("CapClaim");
    reveal_strlit("CapGrant");
    reveal_strlit("App");
    if entry_type_name(a) == entry_type_name(b) {
        let na = entry_type_name(a);
        let nb = entry_type_name(b);
        assert(na.len() == nb.len());
        assert(na.len() < 4 || na[3] == nb[3]);
    }
}

} // verus!
