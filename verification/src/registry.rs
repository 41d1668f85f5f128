//! The registry: the plugin's durable record of the scratchpads it knows.
use vstd::prelude::*;

use crate::json::Json;
use crate::text_map::TextMap;

verus! {

/// Where the registry file lives.
#[derive(Debug, Clone)]
pub struct RegistryStore {
    path: String,
}

impl RegistryStore {
    pub fn new(path: String) -> (s: Self)
        ensures
            s.path() == path,
    {
        RegistryStore { path }
    }

    pub closed spec fn path(self) -> String {
        self.path
    }

    /// The path of the registry file.
    pub fn file(&self) -> (p: &String)
        ensures
            *p == self.path(),
    {
        &self.path
    }
}

/// The registry: a format version and the records, keyed by
/// `registry_key(scope, name)`.
#[derive(Debug)]
pub struct Registry {
    pub version: u32,
    pub scratchpads: TextMap<ScratchpadRecord>,
}

impl Default for Registry {
    fn default() -> (r: Self)
        ensures
            r.version == 1,
            r.scratchpads@ == Map::<Seq<char>, ScratchpadRecord>::empty(),
    {
        Registry { version: 1, scratchpads: TextMap::new() }
    }
}

/// Whether the record kept under `key` is named `name`.
pub open spec fn named(
    records: Map<Seq<char>, ScratchpadRecord>,
    name: Seq<char>,
) -> spec_fn(Seq<char>) -> bool {
    |key: Seq<char>| records[key].name@ == name
}

impl Registry {
    /// Stores `record` under `key`, in place of any record that was there.
    pub fn insert(&mut self, key: String, record: ScratchpadRecord)
        ensures
            final(self).scratchpads@ == old(self).scratchpads@.insert(key@, record),
            final(self).version == old(self).version,
    {
        self.scratchpads.insert(key, record);
    }

    /// Takes the record under `key` out of the registry.
    pub fn remove(&mut self, key: &str) -> (r: Option<ScratchpadRecord>)
        ensures
            final(self).scratchpads@ == old(self).scratchpads@.remove(key@),
            final(self).version == old(self).version,
            r is None ==> *final(self) == *old(self),
            match r {
                Some(rec) => old(self).scratchpads@.contains_key(key@) && rec == old(
                    self,
                ).scratchpads@[key@],
                None => !old(self).scratchpads@.contains_key(key@),
            },
    {
        self.scratchpads.remove(key)
    }

    /// The keys of the records named `name`, in ascending order.
    pub fn keys_for_name(&self, name: &str) -> (keys: Vec<String>)
        ensures
            keys@.map_values(|k: String| k@) == self.scratchpads.key_order().filter(
                named(self.scratchpads@, name@),
            ),
    {
        let n = self.scratchpads.len();
        let ghost order = self.scratchpads.key_order();
        let ghost pred = named(self.scratchpads@, name@);
        let mut keys: Vec<String> = Vec::new();
        let mut i: usize = 0;
        while i < n
            invariant
                n == order.len(),
                order == self.scratchpads.key_order(),
                pred == named(self.scratchpads@, name@),
                n == self.scratchpads.value_order().len(),
                forall|j: int|
                    0 <= j < order.len() ==> #[trigger] self.scratchpads@[order[j]]
                        == self.scratchpads.value_order()[j],
                i <= n,
                keys@.map_values(|k: String| k@) == order.take(i as int).filter(pred),
            decreases n - i,
        {
            let key = self.scratchpads.key_at(i);
            let record = self.scratchpads.value_at(i);
            assert(self.scratchpads@[order[i as int]] == *record);
            proof {
                order.take(i as int).lemma_filter_push(order[i as int], pred);
                assert(order.take(i as int).push(order[i as int]) =~= order.take(i + 1));
            }
            if crate::text::same_text(record.name.as_str(), name) {
                keys.push(key.clone());
                assert(keys@.map_values(|k: String| k@) =~= order.take(i as int).filter(pred).push(
                    order[i as int],
                ));
            }
            i = i + 1;
        }
        assert(order.take(n as int) =~= order);
        keys
    }
}

/// What the registry knows of one scratchpad.
#[derive(Debug)]
pub struct ScratchpadRecord {
    pub name: String,
    pub scope: ScopeRecord,
    pub profile: String,
    pub status: LifecycleStatus,
    pub handle: Option<RuntimeHandle>,
    pub cwd: Option<String>,
    pub created_at: String,
    pub last_shown_at: String,
    pub last_hidden_at: Option<String>,
    pub previous_focus: Option<FocusSnapshot>,
}

/// A scope as the registry stores it: its kind and the key inside that kind.
#[derive(Debug)]
pub struct ScopeRecord {
    pub kind: String,
    pub key: String,
}

impl ScopeRecord {
    /// `kind:key`.
    pub open spec fn text(self) -> Seq<char> {
        self.kind@ + ":"@ + self.key@
    }

    /// The scope as `kind:key`.
    pub fn to_string(&self) -> (r: String)
        ensures
            r@ == self.text(),
    {
        let mut r = self.kind.clone();
        r.append(":");
        r.append(self.key.as_str());
        r
    }

    /// A copy of the scope.
    pub fn duplicate(&self) -> (r: ScopeRecord)
        ensures
            r == *self,
    {
        ScopeRecord { kind: self.kind.clone(), key: self.key.clone() }
    }
}

/// An opaque reference to the Herdr runtime of a scratchpad.
#[derive(Debug)]
pub struct RuntimeHandle {
    pub kind: String,
    pub pane_id: Option<String>,
    pub workspace_id: Option<String>,
    pub opaque: TextMap<Json>,
}

/// The focus token of a handle's opaque data: its `focus_token` entry, or if
/// there is none its `tab_id` entry, when that entry is a JSON string.
pub open spec fn spec_focus_token(opaque: Map<Seq<char>, Json>) -> Option<String> {
    let chosen = if opaque.contains_key("focus_token"@) {
        Some(opaque["focus_token"@])
    } else if opaque.contains_key("tab_id"@) {
        Some(opaque["tab_id"@])
    } else {
        None
    };
    match chosen {
        Some(Json::String(s)) => Some(s),
        _ => None,
    }
}

impl RuntimeHandle {
    /// The token that focuses the tab that holds the runtime.
    pub fn focus_token(&self) -> (r: Option<&String>)
        ensures
            match r {
                Some(t) => spec_focus_token(self.opaque@) == Some(*t),
                None => spec_focus_token(self.opaque@) is None,
            },
    {
        let chosen = match self.opaque.get("focus_token") {
            Some(v) => Some(v),
            None => self.opaque.get("tab_id"),
        };
        match chosen {
            Some(v) => v.as_str(),
            None => None,
        }
    }
}

/// Where focus was before a scratchpad was shown.
#[derive(Debug)]
pub struct FocusSnapshot {
    pub pane_id: Option<String>,
    pub focus_token: Option<String>,
    pub workspace_id: Option<String>,
}

/// The lifecycle states of a scratchpad.
#[derive(Debug, Clone, Copy, PartialEq, Eq, Structural)]
pub enum LifecycleStatus {
    Unknown,
    Available,
    Visible,
    Hidden,
    Stale,
    Closed,
    Error,
}

pub open spec fn spec_status_word(s: LifecycleStatus) -> Seq<char> {
    match s {
        LifecycleStatus::Unknown => "unknown"@,
        LifecycleStatus::Available => "available"@,
        LifecycleStatus::Visible => "visible"@,
        LifecycleStatus::Hidden => "hidden"@,
        LifecycleStatus::Stale => "stale"@,
        LifecycleStatus::Closed => "closed"@,
        LifecycleStatus::Error => "error"@,
    }
}

impl LifecycleStatus {
    /// The public lifecycle word.
    pub fn as_str(self) -> (r: &'static str)
        ensures
            r@ == spec_status_word(self),
    {
        match self {
            LifecycleStatus::Unknown => "unknown",
            LifecycleStatus::Available => "available",
            LifecycleStatus::Visible => "visible",
            LifecycleStatus::Hidden => "hidden",
            LifecycleStatus::Stale => "stale",
            LifecycleStatus::Closed => "closed",
            LifecycleStatus::Error => "error",
        }
    }

    /// The public lifecycle word, as a `String`.
    pub fn to_string(self) -> (r: String)
        ensures
            r@ == spec_status_word(self),
    {
        String::from_str(self.as_str())
    }
}

/// The registry key of a scratchpad: `kind:key:name`.
pub open spec fn spec_registry_key(scope: ScopeRecord, name: Seq<char>) -> Seq<char> {
    scope.text() + ":"@ + name
}

/// The registry key of the scratchpad `name` in `scope`.
pub fn registry_key(scope: &ScopeRecord, name: &str) -> (k: String)
    ensures
        k@ == spec_registry_key(*scope, name@),
{
    let mut k = scope.to_string();
    k.append(":");
    k.append(name);
    k
}

#[verifier::external_type_specification]
#[verifier::external_body]
pub struct ExOffsetDateTime(time::OffsetDateTime);

#[verifier::external_type_specification]
#[verifier::external_body]
pub struct ExFormatError(time::error::Format);

/// The current time in UTC, from `time::OffsetDateTime::now_utc`; it depends
/// on the clock, so nothing is stated of it.
#[verifier::external_body]
fn utc_now() -> time::OffsetDateTime {
    time::OffsetDateTime::now_utc()
}

/// Whether a character is an ASCII digit.
pub open spec fn is_ascii_digit(c: char) -> bool {
    '0' <= c && c <= '9'
}

/// Whether a text has the shape of an RFC 3339 date-time: `YYYY-MM-DDTHH:MM:SS`,
/// then (after any fraction of a second) `Z` or an offset `+HH:MM` / `-HH:MM`.
pub open spec fn rfc3339_shaped(s: Seq<char>) -> bool {
    &&& s.len() >= 20
    &&& forall|i: int|
        0 <= i < 19 && i != 4 && i != 7 && i != 10 && i != 13 && i != 16 ==> is_ascii_digit(
            #[trigger] s[i],
        )
    &&& s[4] == '-' && s[7] == '-' && s[10] == 'T' && s[13] == ':' && s[16] == ':'
    &&& s[s.len() - 1] == 'Z' || (s.len() >= 25 && (s[s.len() - 6] == '+' || s[s.len() - 6]
        == '-') && is_ascii_digit(s[s.len() - 5]) && is_ascii_digit(s[s.len() - 4]) && s[s.len()
        - 3] == ':' && is_ascii_digit(s[s.len() - 2]) && is_ascii_digit(s[s.len() - 1]))
}

/// `time::OffsetDateTime::format` with the RFC 3339 description. Its source
/// writes a four-digit year, `-`, month, `-`, day, `T`, hour, `:`, minute,
/// `:`, second (each two zero-padded digits), an optional fraction, then `Z`
/// for UTC or a signed `HH:MM` offset; it fails for years outside 0..=9999 and
/// offsets it cannot write. Which time the text shows is not stated.
#[verifier::external_body]
fn format_rfc3339(t: &time::OffsetDateTime) -> (r: Result<String, time::error::Format>)
    ensures
        r matches Ok(text) ==> rfc3339_shaped(text@),
{
    t.format(&time::format_description::well_known::Rfc3339)
}

/// A timestamp: the formatted time when formatting succeeded, else the Unix
/// epoch in RFC 3339 form.
pub fn rfc3339_or_epoch(formatted: Option<String>) -> (r: String)
    ensures
        r@ == match formatted {
            Some(t) => t@,
            None => "1970-01-01T00:00:00Z"@,
        },
{
    match formatted {
        Some(text) => text,
        None => String::from_str("1970-01-01T00:00:00Z"),
    }
}

/// The current time in RFC 3339 form, or the Unix epoch when it cannot be
/// formatted: in either case an RFC 3339 timestamp.
pub fn now_rfc3339() -> (r: String)
    ensures
        rfc3339_shaped(r@),
{
    let now = utc_now();
    let formatted = match format_rfc3339(&now) {
        Ok(text) => Some(text),
        Err(_) => None,
    };
    proof {
        reveal_strlit("1970-01-01T00:00:00Z");
        let e = "1970-01-01T00:00:00Z"@;
        assert(e.len() == 20);
        assert(rfc3339_shaped(e));
    }
    rfc3339_or_epoch(formatted)
}

} // verus!
