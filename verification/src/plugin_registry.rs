//! The registry of plugin errors: at most one record per plugin id, at most
//! `MAX_PLUGIN_ERROR_ENTRIES` records in all.

use crate::decimal::{decimal_chars, decimal_string};
use crate::plugin_validation::{
    invalid_id_message, record_input_error, valid_plugin_id, validate_plugin_id,
    validate_record_input,
};
use crate::text::{same_text, trim, trim_chars};
use crate::trusted::{duration_secs, since_unix_epoch, system_time_now};
use vstd::prelude::*;

verus! {

/// Most records the registry holds.
pub const MAX_PLUGIN_ERROR_ENTRIES: usize = 128;

/// Largest registry file, in bytes.
pub const MAX_PLUGIN_ERROR_FILE_BYTES: u64 = 2097152;

/// One recorded plugin error.
pub struct PluginError {
    /// The error message (a log excerpt, at most 2000 characters).
    pub message: String,
    /// The action during which it happened: install / update / remove / runtime.
    pub action: String,
    /// When it was recorded (Unix seconds, in decimal).
    pub at: String,
}

/// What a record holds, as text.
pub struct PluginErrorView {
    pub message: Seq<char>,
    pub action: Seq<char>,
    pub at: Seq<char>,
}

impl View for PluginError {
    type V = PluginErrorView;

    open spec fn view(&self) -> PluginErrorView {
        PluginErrorView { message: self.message@, action: self.action@, at: self.at@ }
    }
}

impl PluginError {
    /// A copy of the record.
    pub fn duplicate(&self) -> (copy: PluginError)
        ensures
            copy@ == self@,
    {
        PluginError {
            message: self.message.clone(),
            action: self.action.clone(),
            at: self.at.clone(),
        }
    }
}

/// The records of a list of `(id, record)` pairs, as text.
pub open spec fn entry_views(entries: Seq<(String, PluginError)>) -> Seq<(Seq<char>, PluginErrorView)> {
    entries.map_values(|e: (String, PluginError)| (e.0@, e.1@))
}

/// The ids of a list of records, in order.
pub open spec fn ids_of(entries: Seq<(Seq<char>, PluginErrorView)>) -> Seq<Seq<char>> {
    entries.map_values(|e: (Seq<char>, PluginErrorView)| e.0)
}

/// The position of `id` in a list of records.
pub open spec fn id_position(entries: Seq<(Seq<char>, PluginErrorView)>, id: Seq<char>) -> int {
    choose|i: int| 0 <= i < entries.len() && entries[i].0 == id
}

/// The map from id to record that a list of records with distinct ids denotes.
pub open spec fn records_map(entries: Seq<(Seq<char>, PluginErrorView)>) -> Map<
    Seq<char>,
    PluginErrorView,
> {
    Map::new(|id: Seq<char>| ids_of(entries).contains(id), |id: Seq<char>| entries[id_position(entries, id)].1)
}

/// A well-formed list of records: distinct ids, and within the limit.
pub open spec fn records_wf(entries: Seq<(Seq<char>, PluginErrorView)>) -> bool {
    &&& ids_of(entries).no_duplicates()
    &&& entries.len() <= MAX_PLUGIN_ERROR_ENTRIES
}

/// With distinct ids, the record of the id at position `i` is the one at `i`.
pub proof fn lemma_records_map_at(entries: Seq<(Seq<char>, PluginErrorView)>, i: int)
    requires
        ids_of(entries).no_duplicates(),
        0 <= i < entries.len(),
    ensures
        records_map(entries).dom().contains(entries[i].0),
        records_map(entries)[entries[i].0] == entries[i].1,
{
    let id = entries[i].0;
    assert(ids_of(entries)[i] == id);
    let j = id_position(entries, id);
    assert(ids_of(entries)[j] == ids_of(entries)[i]);
}

/// The number of records is the number of ids.
pub proof fn lemma_records_map_len(entries: Seq<(Seq<char>, PluginErrorView)>)
    requires
        ids_of(entries).no_duplicates(),
    ensures
        records_map(entries).dom().len() == entries.len(),
{
    ids_of(entries).unique_seq_to_set();
    assert(records_map(entries).dom() =~= ids_of(entries).to_set());
}

/// Replacing the record at the position of its id replaces it in the map.
pub proof fn lemma_records_map_update(
    entries: Seq<(Seq<char>, PluginErrorView)>,
    i: int,
    record: PluginErrorView,
)
    requires
        ids_of(entries).no_duplicates(),
        0 <= i < entries.len(),
    ensures
        ids_of(entries.update(i, (entries[i].0, record))).no_duplicates(),
        records_map(entries.update(i, (entries[i].0, record))) == records_map(entries).insert(
            entries[i].0,
            record,
        ),
{
    let id = entries[i].0;
    let next = entries.update(i, (id, record));
    assert(ids_of(next) =~= ids_of(entries));
    lemma_records_map_at(next, i);
    assert forall|k: Seq<char>| #[trigger] records_map(next).dom().contains(k) && k != id implies
        records_map(next)[k] == records_map(entries)[k] by {
        let j = id_position(next, k);
        assert(ids_of(next)[j] == k);
        assert(next[j] == entries[j]);
        lemma_records_map_at(entries, j);
        lemma_records_map_at(next, j);
    }
    assert(records_map(next) =~= records_map(entries).insert(id, record));
}

/// Appending a record for a new id adds it to the map.
pub proof fn lemma_records_map_push(
    entries: Seq<(Seq<char>, PluginErrorView)>,
    id: Seq<char>,
    record: PluginErrorView,
)
    requires
        ids_of(entries).no_duplicates(),
        !ids_of(entries).contains(id),
    ensures
        ids_of(entries.push((id, record))).no_duplicates(),
        records_map(entries.push((id, record))) == records_map(entries).insert(id, record),
{
    let next = entries.push((id, record));
    assert(ids_of(next) =~= ids_of(entries).push(id));
    assert(ids_of(next).no_duplicates()) by {
        assert forall|a: int, b: int|
            0 <= a < ids_of(next).len() && 0 <= b < ids_of(next).len() && a != b implies ids_of(
            next,
        )[a] != ids_of(next)[b] by {
            if a == entries.len() {
                assert(ids_of(entries)[b] == ids_of(next)[b]);
            } else if b == entries.len() {
                assert(ids_of(entries)[a] == ids_of(next)[a]);
            } else {
                assert(ids_of(entries)[a] == ids_of(next)[a]);
                assert(ids_of(entries)[b] == ids_of(next)[b]);
            }
        }
    }
    lemma_records_map_at(next, entries.len() as int);
    assert forall|k: Seq<char>| #[trigger] records_map(next).dom().contains(k) && k != id implies
        records_map(entries).dom().contains(k) && records_map(next)[k] == records_map(entries)[k] by {
        let j = id_position(next, k);
        assert(ids_of(next)[j] == k);
        assert(j < entries.len());
        assert(next[j] == entries[j]);
        assert(ids_of(entries)[j] == k);
        lemma_records_map_at(entries, j);
        lemma_records_map_at(next, j);
    }
    assert forall|k: Seq<char>| #[trigger] records_map(entries).dom().contains(k) implies records_map(
        next,
    ).dom().contains(k) by {
        let j = choose|j: int| 0 <= j < ids_of(entries).len() && ids_of(entries)[j] == k;
        assert(ids_of(next)[j] == k);
    }
    assert(records_map(next) =~= records_map(entries).insert(id, record));
}

/// Removing the record at position `i` removes its id from the map.
pub proof fn lemma_records_map_remove(entries: Seq<(Seq<char>, PluginErrorView)>, i: int)
    requires
        ids_of(entries).no_duplicates(),
        0 <= i < entries.len(),
    ensures
        ids_of(entries.remove(i)).no_duplicates(),
        records_map(entries.remove(i)) == records_map(entries).remove(entries[i].0),
{
    let id = entries[i].0;
    let next = entries.remove(i);
    assert(ids_of(next) =~= ids_of(entries).remove(i));
    assert forall|a: int, b: int|
        0 <= a < ids_of(next).len() && 0 <= b < ids_of(next).len() && a != b implies ids_of(
        next,
    )[a] != ids_of(next)[b] by {
        let a0 = if a < i { a } else { a + 1 };
        let b0 = if b < i { b } else { b + 1 };
        assert(ids_of(next)[a] == ids_of(entries)[a0]);
        assert(ids_of(next)[b] == ids_of(entries)[b0]);
    }
    assert forall|k: Seq<char>| #[trigger] records_map(next).dom().contains(k) implies k != id
        && records_map(entries).dom().contains(k) && records_map(next)[k] == records_map(
        entries,
    )[k] by {
        let j = id_position(next, k);
        let j0 = if j < i { j } else { j + 1 };
        assert(ids_of(next)[j] == k);
        assert(next[j] == entries[j0]);
        assert(ids_of(entries)[j0] == k);
        assert(ids_of(entries)[i] == id);
        assert(j0 != i);
        lemma_records_map_at(entries, j0);
        lemma_records_map_at(next, j);
    }
    assert forall|k: Seq<char>| #[trigger] records_map(entries).dom().contains(k) && k != id implies records_map(
        next,
    ).dom().contains(k) by {
        let j = choose|j: int| 0 <= j < ids_of(entries).len() && ids_of(entries)[j] == k;
        assert(j != i);
        let j1 = if j < i { j } else { j - 1 };
        assert(ids_of(next)[j1] == k);
    }
    assert(records_map(next) =~= records_map(entries).remove(id));
}

/// Where the record for `id` stands in a list of records, if there is one.
fn find_id(entries: &Vec<(String, PluginError)>, id: &str) -> (r: Option<usize>)
    ensures
        match r {
            Some(i) => i < entries@.len() && entry_views(entries@)[i as int].0 == id@,
            None => !ids_of(entry_views(entries@)).contains(id@),
        },
{
    let ghost ids = ids_of(entry_views(entries@));
    let mut i: usize = 0;
    while i < entries.len()
        invariant
            0 <= i <= entries@.len(),
            ids == ids_of(entry_views(entries@)),
            forall|k: int| 0 <= k < i ==> ids[k] != id@,
        decreases entries@.len() - i,
    {
        if same_text(entries[i].0.as_str(), id) {
            return Some(i);
        }
        assert(ids[i as int] == entries@[i as int].0@);
        i = i + 1;
    }
    None
}

/// The plugin error registry.
pub struct PluginErrorMap {
    entries: Vec<(String, PluginError)>,
}

impl View for PluginErrorMap {
    type V = Map<Seq<char>, PluginErrorView>;

    closed spec fn view(&self) -> Map<Seq<char>, PluginErrorView> {
        records_map(entry_views(self.entries@))
    }
}

impl PluginErrorMap {
    #[verifier::type_invariant]
    spec fn well_formed(self) -> bool {
        records_wf(entry_views(self.entries@))
    }

    /// An empty registry.
    pub fn new() -> (map: Self)
        ensures
            map@ == Map::<Seq<char>, PluginErrorView>::empty(),
    {
        let map = PluginErrorMap { entries: Vec::new() };
        assert(map@ =~= Map::<Seq<char>, PluginErrorView>::empty());
        map
    }

    /// The number of records.
    pub fn len(&self) -> (n: usize)
        ensures
            n == self@.dom().len(),
            n <= MAX_PLUGIN_ERROR_ENTRIES,
    {
        proof {
            use_type_invariant(self);
            lemma_records_map_len(entry_views(self.entries@));
        }
        self.entries.len()
    }

    /// Where the record for `id` stands, if there is one.
    fn position(&self, id: &str) -> (r: Option<usize>)
        ensures
            match r {
                Some(i) => i < self.entries@.len() && entry_views(self.entries@)[i as int].0
                    == id@,
                None => !ids_of(entry_views(self.entries@)).contains(id@),
            },
    {
        find_id(&self.entries, id)
    }

    /// Whether there is a record for `id`.
    pub fn contains_key(&self, id: &str) -> (found: bool)
        ensures
            found == self@.dom().contains(id@),
    {
        match self.position(id) {
            Some(i) => {
                proof {
                    use_type_invariant(self);
                    lemma_records_map_at(entry_views(self.entries@), i as int);
                }
                true
            },
            None => false,
        }
    }

    /// The record for `id`, if there is one.
    pub fn get(&self, id: &str) -> (r: Option<&PluginError>)
        ensures
            match r {
                Some(e) => self@.dom().contains(id@) && self@[id@] == e@,
                None => !self@.dom().contains(id@),
            },
    {
        match self.position(id) {
            Some(i) => {
                proof {
                    use_type_invariant(self);
                    lemma_records_map_at(entry_views(self.entries@), i as int);
                }
                Some(&self.entries[i].1)
            },
            None => None,
        }
    }

    /// The records as `(id, record)` pairs, each id once.
    pub fn entries(&self) -> (r: &Vec<(String, PluginError)>)
        ensures
            records_map(entry_views(r@)) == self@,
            records_wf(entry_views(r@)),
    {
        proof {
            use_type_invariant(self);
        }
        &self.entries
    }

    /// Removes the record for `id`; says whether there was one.
    pub fn remove(&mut self, id: &str) -> (removed: bool)
        ensures
            removed == old(self)@.dom().contains(id@),
            final(self)@ == old(self)@.remove(id@),
    {
        proof {
            use_type_invariant(&*self);
        }
        match self.position(id) {
            Some(i) => {
                let ghost before = entry_views(self.entries@);
                proof {
                    lemma_records_map_at(before, i as int);
                    lemma_records_map_remove(before, i as int);
                }
                let mut entries = Vec::new();
                std::mem::swap(&mut entries, &mut self.entries);
                entries.remove(i);
                assert(entry_views(entries@) =~= before.remove(i as int));
                self.entries = entries;
                true
            },
            None => {
                assert(self@ =~= old(self)@.remove(id@));
                false
            },
        }
    }
}

/// Error text when a new id would exceed the record limit.
pub open spec fn entry_limit_message() -> Seq<char> {
    "PLUGIN_ERRORS_LIMIT: registry entry limit reached"@
}

/// The error an insertion meets, if any: an invalid report, or a new id
/// while the registry is full.
pub open spec fn insert_error(
    map: Map<Seq<char>, PluginErrorView>,
    id: Seq<char>,
    action: Seq<char>,
    message: Seq<char>,
) -> Option<Seq<char>> {
    if record_input_error(id, action, message) is Some {
        record_input_error(id, action, message)
    } else if !map.dom().contains(id) && map.dom().len() >= MAX_PLUGIN_ERROR_ENTRIES {
        Some(entry_limit_message())
    } else {
        None
    }
}

/// Records an error for `id`, replacing any earlier record for it.
pub fn insert_record(
    map: &mut PluginErrorMap,
    id: &str,
    action: &str,
    message: &str,
    at: String,
) -> (r: Result<(), String>)
    ensures
        match r {
            Ok(()) => insert_error(old(map)@, id@, action@, message@) is None,
            Err(e) => insert_error(old(map)@, id@, action@, message@) == Some(e@),
        },
        r is Ok ==> final(map)@ == old(map)@.insert(
            id@,
            PluginErrorView { message: message@, action: action@, at: at@ },
        ),
        r is Err ==> final(map)@ == old(map)@,
        final(map)@.dom().len() <= MAX_PLUGIN_ERROR_ENTRIES,
{
    proof {
        use_type_invariant(&*map);
        lemma_records_map_len(entry_views(map.entries@));
    }
    validate_record_input(id, action, message)?;
    let record = PluginError {
        message: String::from_str(message),
        action: String::from_str(action),
        at,
    };
    let ghost view = record@;
    match map.position(id) {
        Some(i) => {
            let ghost before = entry_views(map.entries@);
            proof {
                lemma_records_map_at(before, i as int);
                lemma_records_map_update(before, i as int, view);
            }
            let mut entries = Vec::new();
            std::mem::swap(&mut entries, &mut map.entries);
            entries.set(i, (String::from_str(id), record));
            assert(entry_views(entries@) =~= before.update(i as int, (before[i as int].0, view)));
            map.entries = entries;
            proof {
                lemma_records_map_len(entry_views(map.entries@));
            }
            Ok(())
        },
        None => {
            if map.entries.len() >= MAX_PLUGIN_ERROR_ENTRIES {
                return Err(String::from_str("PLUGIN_ERRORS_LIMIT: registry entry limit reached"));
            }
            let ghost before = entry_views(map.entries@);
            proof {
                lemma_records_map_push(before, id@, view);
            }
            let mut entries = Vec::new();
            std::mem::swap(&mut entries, &mut map.entries);
            entries.push((String::from_str(id), record));
            assert(entry_views(entries@) =~= before.push((id@, view)));
            map.entries = entries;
            proof {
                lemma_records_map_len(entry_views(map.entries@));
            }
            Ok(())
        },
    }
}


// ---------------------------------------------------------------------------
// Loading, recording, clearing
// ---------------------------------------------------------------------------

/// Whether a stored pair is a report that passes validation.
pub open spec fn stored_record_valid(entry: (Seq<char>, PluginErrorView)) -> bool {
    record_input_error(entry.0, entry.1.action, entry.1.message) is None
}

/// The records kept from a loaded list, in order: each valid one whose id is
/// not already kept, until the limit is reached.
pub open spec fn kept_entries(entries: Seq<(Seq<char>, PluginErrorView)>) -> Seq<
    (Seq<char>, PluginErrorView),
>
    decreases entries.len(),
{
    if entries.len() == 0 {
        seq![]
    } else {
        let kept = kept_entries(entries.drop_last());
        let entry = entries.last();
        if stored_record_valid(entry) && kept.len() < MAX_PLUGIN_ERROR_ENTRIES && !ids_of(
            kept,
        ).contains(entry.0) {
            kept.push(entry)
        } else {
            kept
        }
    }
}

/// Kept records are well formed and each passes validation.
pub proof fn lemma_kept_entries(entries: Seq<(Seq<char>, PluginErrorView)>)
    ensures
        records_wf(kept_entries(entries)),
        forall|i: int|
            0 <= i < kept_entries(entries).len() ==> stored_record_valid(
                #[trigger] kept_entries(entries)[i],
            ),
    decreases entries.len(),
{
    if entries.len() > 0 {
        lemma_kept_entries(entries.drop_last());
        let kept = kept_entries(entries.drop_last());
        let entry = entries.last();
        if stored_record_valid(entry) && kept.len() < MAX_PLUGIN_ERROR_ENTRIES && !ids_of(
            kept,
        ).contains(entry.0) {
            lemma_records_map_push(kept, entry.0, entry.1);
            let next = kept.push(entry);
            assert forall|i: int| 0 <= i < next.len() implies stored_record_valid(
                #[trigger] next[i],
            ) by {
                if i < kept.len() {
                    assert(next[i] == kept[i]);
                }
            }
        }
    }
}

/// The registry built from a loaded list of `(id, record)` pairs: the valid
/// records, the first of each id, at most `MAX_PLUGIN_ERROR_ENTRIES`.
pub fn registry_from_entries(entries: Vec<(String, PluginError)>) -> (map: PluginErrorMap)
    ensures
        map@ == records_map(kept_entries(entry_views(entries@))),
{
    let ghost all = entry_views(entries@);
    let mut kept: Vec<(String, PluginError)> = Vec::new();
    let mut i: usize = 0;
    while i < entries.len()
        invariant
            0 <= i <= entries@.len(),
            all == entry_views(entries@),
            entry_views(kept@) == kept_entries(all.take(i as int)),
        decreases entries@.len() - i,
    {
        let ghost before = entry_views(kept@);
        assert(all.take(i + 1).drop_last() =~= all.take(i as int));
        let entry = &entries[i];
        assert(all.take(i + 1).last() == (entry.0@, entry.1@));
        let valid = validate_record_input(
            entry.0.as_str(),
            entry.1.action.as_str(),
            entry.1.message.as_str(),
        ).is_ok();
        assert(valid == stored_record_valid((entry.0@, entry.1@)));
        if valid && kept.len() < MAX_PLUGIN_ERROR_ENTRIES {
            match find_id(&kept, entry.0.as_str()) {
                None => {
                    kept.push((entry.0.clone(), entry.1.duplicate()));
                    assert(entry_views(kept@) =~= before.push((entry.0@, entry.1@)));
                },
                Some(j) => {
                    assert(ids_of(before)[j as int] == entry.0@);
                },
            }
        }
        i = i + 1;
    }
    assert(all.take(entries@.len() as int) =~= all);
    proof {
        lemma_kept_entries(all);
    }
    PluginErrorMap { entries: kept }
}

/// The error a report meets, if any: validation of the report as given, then
/// insertion of its trimmed message.
pub open spec fn record_error(
    map: Map<Seq<char>, PluginErrorView>,
    id: Seq<char>,
    action: Seq<char>,
    message: Seq<char>,
) -> Option<Seq<char>> {
    if record_input_error(id, action, message) is Some {
        record_input_error(id, action, message)
    } else {
        insert_error(map, id, action, trim_chars(message))
    }
}

/// Records a report with its message trimmed, replacing any earlier record
/// for the id.
pub fn record_in(
    map: &mut PluginErrorMap,
    id: &str,
    action: &str,
    message: &str,
    at: String,
) -> (r: Result<(), String>)
    ensures
        match r {
            Ok(()) => record_error(old(map)@, id@, action@, message@) is None,
            Err(e) => record_error(old(map)@, id@, action@, message@) == Some(e@),
        },
        r is Ok ==> final(map)@ == old(map)@.insert(
            id@,
            PluginErrorView { message: trim_chars(message@), action: action@, at: at@ },
        ),
        r is Err ==> final(map)@ == old(map)@,
        final(map)@.dom().len() <= MAX_PLUGIN_ERROR_ENTRIES,
{
    proof {
        use_type_invariant(&*map);
        lemma_records_map_len(entry_views(map.entries@));
    }
    validate_record_input(id, action, message)?;
    let trimmed = trim(message);
    insert_record(map, id, action, trimmed.as_str(), at)
}

/// Clears the record for `id`; says whether there was one (and so whether
/// the registry changed).
pub fn clear_in(map: &mut PluginErrorMap, id: &str) -> (r: Result<bool, String>)
    ensures
        r is Err <==> !valid_plugin_id(id@),
        r matches Err(e) ==> e@ == invalid_id_message() && final(map)@ == old(map)@,
        r matches Ok(removed) ==> removed == old(map)@.dom().contains(id@) && final(map)@ == old(
            map,
        )@.remove(id@),
{
    validate_plugin_id(id)?;
    Ok(map.remove(id))
}

/// Whether a registry file of `len` bytes may be read.
pub fn registry_file_fits(len: u64) -> (fits: bool)
    ensures
        fits == (len <= MAX_PLUGIN_ERROR_FILE_BYTES),
{
    len <= MAX_PLUGIN_ERROR_FILE_BYTES
}

/// Error text for a rendered registry over the file limit.
pub open spec fn registry_too_large_message() -> Seq<char> {
    "PLUGIN_ERRORS_LIMIT: registry exceeds the size limit"@
}

/// Checks that rendered JSON of `json_len` bytes, plus its final newline,
/// fits in a registry file.
pub fn check_rendered_size(json_len: usize) -> (r: Result<(), String>)
    ensures
        r is Ok <==> json_len + 1 <= MAX_PLUGIN_ERROR_FILE_BYTES,
        r matches Err(e) ==> e@ == registry_too_large_message(),
{
    if json_len >= MAX_PLUGIN_ERROR_FILE_BYTES as usize {
        return Err(String::from_str("PLUGIN_ERRORS_LIMIT: registry exceeds the size limit"));
    }
    Ok(())
}

/// The text of a timestamp: the decimal seconds, or empty when the clock
/// stands before the Unix epoch.
pub open spec fn timestamp_text(seconds: Option<u64>) -> Seq<char> {
    match seconds {
        Some(s) => decimal_chars(s as nat),
        None => Seq::empty(),
    }
}

/// Renders a reading of Unix seconds as a timestamp.
pub fn format_timestamp(seconds: Option<u64>) -> (text: String)
    ensures
        text@ == timestamp_text(seconds),
{
    match seconds {
        Some(s) => decimal_string(s as u128),
        None => String::new(),
    }
}

/// The current time as decimal Unix seconds (empty before the epoch).
pub fn current_timestamp() -> (text: String)
    ensures
        exists|seconds: Option<u64>| text@ == timestamp_text(seconds),
{
    let now = system_time_now();
    let seconds = match since_unix_epoch(&now) {
        Ok(elapsed) => Some(duration_secs(&elapsed)),
        Err(_) => None,
    };
    format_timestamp(seconds)
}

// ---------------------------------------------------------------------------
// Laws of the registry
// ---------------------------------------------------------------------------

/// Recording for an id that already has a record never meets the entry
/// limit: a valid report for a known id is always stored.
pub proof fn lemma_known_id_always_recorded(
    map: Map<Seq<char>, PluginErrorView>,
    id: Seq<char>,
    action: Seq<char>,
    message: Seq<char>,
)
    requires
        map.dom().contains(id),
        record_input_error(id, action, message) is None,
    ensures
        record_error(map, id, action, message) is None,
{
    crate::text::lemma_trim_shrinks(message);
}

/// Clearing an id after recording it leaves the registry as clearing it
/// would have before: the record is gone and every other record is untouched.
pub proof fn lemma_record_then_clear(
    map: Map<Seq<char>, PluginErrorView>,
    id: Seq<char>,
    record: PluginErrorView,
)
    ensures
        map.insert(id, record).remove(id) == map.remove(id),
        !map.insert(id, record).remove(id).dom().contains(id),
{
    assert(map.insert(id, record).remove(id) =~= map.remove(id));
}

/// Every record of a loaded registry passes validation, and there are at
/// most `MAX_PLUGIN_ERROR_ENTRIES` of them.
pub proof fn lemma_loaded_records_valid(entries: Seq<(Seq<char>, PluginErrorView)>)
    ensures
        records_map(kept_entries(entries)).dom().len() <= MAX_PLUGIN_ERROR_ENTRIES,
        forall|id: Seq<char>|
            #[trigger] records_map(kept_entries(entries)).dom().contains(id) ==> record_input_error(
                id,
                records_map(kept_entries(entries))[id].action,
                records_map(kept_entries(entries))[id].message,
            ) is None,
{
    let kept = kept_entries(entries);
    lemma_kept_entries(entries);
    lemma_records_map_len(kept);
    assert forall|id: Seq<char>| #[trigger] records_map(kept).dom().contains(id) implies record_input_error(
        id,
        records_map(kept)[id].action,
        records_map(kept)[id].message,
    ) is None by {
        let j = choose|j: int| 0 <= j < ids_of(kept).len() && ids_of(kept)[j] == id;
        lemma_records_map_at(kept, j);
        assert(stored_record_valid(kept[j]));
    }
}

/// Every kept record is a record of the loaded list.
pub proof fn lemma_kept_entries_from_input(entries: Seq<(Seq<char>, PluginErrorView)>)
    ensures
        forall|j: int|
            0 <= j < kept_entries(entries).len() ==> entries.contains(
                #[trigger] kept_entries(entries)[j],
            ),
    decreases entries.len(),
{
    if entries.len() > 0 {
        let prefix = entries.drop_last();
        lemma_kept_entries_from_input(prefix);
        let kept = kept_entries(entries);
        let rest = kept_entries(prefix);
        assert forall|j: int| 0 <= j < kept.len() implies entries.contains(#[trigger] kept[j]) by {
            if j < rest.len() {
                assert(kept[j] == rest[j]);
                let i = choose|i: int| 0 <= i < prefix.len() && prefix[i] == rest[j];
                assert(entries[i] == kept[j]);
            } else {
                assert(entries[entries.len() - 1] == kept[j]);
            }
        }
    }
}

/// A loaded registry is part of what was loaded: for a list with distinct ids
/// (as a parsed JSON object has), each kept id was in the list with the very
/// record it keeps.
pub proof fn lemma_loaded_registry_is_submap(entries: Seq<(Seq<char>, PluginErrorView)>)
    requires
        ids_of(entries).no_duplicates(),
    ensures
        forall|id: Seq<char>|
            #[trigger] records_map(kept_entries(entries)).dom().contains(id) ==> records_map(
                entries,
            ).dom().contains(id) && records_map(entries)[id] == records_map(
                kept_entries(entries),
            )[id],
{
    let kept = kept_entries(entries);
    lemma_kept_entries(entries);
    lemma_kept_entries_from_input(entries);
    assert forall|id: Seq<char>| #[trigger] records_map(kept).dom().contains(id) implies records_map(
        entries,
    ).dom().contains(id) && records_map(entries)[id] == records_map(kept)[id] by {
        let j = choose|j: int| 0 <= j < ids_of(kept).len() && ids_of(kept)[j] == id;
        lemma_records_map_at(kept, j);
        assert(entries.contains(kept[j]));
        let i = choose|i: int| 0 <= i < entries.len() && entries[i] == kept[j];
        lemma_records_map_at(entries, i);
    }
}

/// The number of pairs in a loaded list that pass validation as reports.
pub open spec fn valid_report_count(entries: Seq<(Seq<char>, PluginErrorView)>) -> nat
    decreases entries.len(),
{
    if entries.len() == 0 {
        0
    } else {
        valid_report_count(entries.drop_last()) + if record_input_error(
            entries.last().0,
            entries.last().1.action,
            entries.last().1.message,
        ) is None {
            1nat
        } else {
            0nat
        }
    }
}

/// With distinct ids and no more valid pairs than the limit, loading keeps
/// every valid pair: as many records as valid pairs, each valid id kept.
pub proof fn lemma_kept_every_valid(entries: Seq<(Seq<char>, PluginErrorView)>)
    requires
        ids_of(entries).no_duplicates(),
        valid_report_count(entries) <= MAX_PLUGIN_ERROR_ENTRIES,
    ensures
        kept_entries(entries).len() == valid_report_count(entries),
        forall|i: int|
            0 <= i < entries.len() && record_input_error(
                #[trigger] entries[i].0,
                entries[i].1.action,
                entries[i].1.message,
            ) is None ==> kept_entries(entries).contains(entries[i]),
    decreases entries.len(),
{
    if entries.len() > 0 {
        let prefix = entries.drop_last();
        assert forall|a: int, b: int| 0 <= a < b < ids_of(prefix).len() implies ids_of(prefix)[a]
            != ids_of(prefix)[b] by {
            assert(ids_of(prefix)[a] == ids_of(entries)[a]);
            assert(ids_of(prefix)[b] == ids_of(entries)[b]);
        }
        lemma_kept_every_valid(prefix);
        lemma_kept_entries_from_input(prefix);
        let rest = kept_entries(prefix);
        let entry = entries.last();
        let last = entries.len() - 1;
        if record_input_error(entry.0, entry.1.action, entry.1.message) is None {
            assert(stored_record_valid(entry));
            if ids_of(rest).contains(entry.0) {
                let j = choose|j: int| 0 <= j < ids_of(rest).len() && ids_of(rest)[j] == entry.0;
                assert(prefix.contains(rest[j]));
                let i = choose|i: int| 0 <= i < prefix.len() && prefix[i] == rest[j];
                assert(ids_of(entries)[i] == ids_of(entries)[last]);
            }
            assert(kept_entries(entries) == rest.push(entry));
        }
        let kept = kept_entries(entries);
        assert forall|i: int|
            0 <= i < entries.len() && record_input_error(
                #[trigger] entries[i].0,
                entries[i].1.action,
                entries[i].1.message,
            ) is None implies kept.contains(entries[i]) by {
            if i < last {
                assert(prefix[i] == entries[i]);
                let j = choose|j: int| 0 <= j < rest.len() && rest[j] == prefix[i];
                assert(kept[j] == rest[j]);
            } else {
                assert(kept[kept.len() - 1] == entries[i]);
            }
        }
    }
}

/// Loading keeps every valid record: for a list with distinct ids (as a
/// parsed JSON object has) and no more valid pairs than the limit, each pair
/// that passes validation is in the loaded registry with its record, and the
/// registry holds exactly as many records as there are such pairs.
pub proof fn lemma_load_keeps_valid_records(entries: Seq<(Seq<char>, PluginErrorView)>)
    requires
        ids_of(entries).no_duplicates(),
        valid_report_count(entries) <= MAX_PLUGIN_ERROR_ENTRIES,
    ensures
        records_map(kept_entries(entries)).dom().len() == valid_report_count(entries),
        forall|i: int|
            0 <= i < entries.len() && record_input_error(
                #[trigger] entries[i].0,
                entries[i].1.action,
                entries[i].1.message,
            ) is None ==> records_map(kept_entries(entries)).dom().contains(entries[i].0)
                && records_map(kept_entries(entries))[entries[i].0] == entries[i].1,
{
    let kept = kept_entries(entries);
    lemma_kept_entries(entries);
    lemma_kept_every_valid(entries);
    lemma_records_map_len(kept);
    assert forall|i: int|
        0 <= i < entries.len() && record_input_error(
            #[trigger] entries[i].0,
            entries[i].1.action,
            entries[i].1.message,
        ) is None implies records_map(kept).dom().contains(entries[i].0) && records_map(kept)[entries[i].0]
        == entries[i].1 by {
        let j = choose|j: int| 0 <= j < kept.len() && kept[j] == entries[i];
        lemma_records_map_at(kept, j);
    }
}

} // verus!
