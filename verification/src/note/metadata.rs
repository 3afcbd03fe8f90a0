use vstd::prelude::*;
use vstd::string::StringExecFns;

verus! {

/// A note's preamble fields.  Timestamps are unix time in milliseconds.
/// Every field is absent when the preamble does not supply it in a usable
/// form: absence is never an error.
#[derive(Debug, PartialEq, Eq)]
pub struct Metadata {
    pub title: Option<String>,
    pub created: Option<i64>,
    pub modified: Option<i64>,
}

impl Metadata {
    /// The metadata with every field absent.
    pub fn absent() -> (r: Metadata)
        ensures
            r.title is None,
            r.created is None,
            r.modified is None,
    {
        Metadata { title: Option::None, created: Option::None, modified: Option::None }
    }
}

impl Default for Metadata {
    fn default() -> (r: Metadata)
        ensures
            r.title is None,
            r.created is None,
            r.modified is None,
    {
        Metadata::absent()
    }
}

#[verifier::external_type_specification]
#[verifier::external_body]
pub struct ExPod(gray_matter::Pod);

/// The body of the note text with any preamble stripped, as the
/// front-matter splitter computes it.
pub uninterp spec fn body_of(s: Seq<char>) -> Seq<char>;

/// Whether the note text opens with a preamble that the front-matter
/// splitter accepts.
pub uninterp spec fn has_preamble(s: Seq<char>) -> bool;

/// Relies on gray_matter's `Matter::<YAML>::new` and `Matter::parse`:
/// splits the note text into an optional preamble value and the body.
/// The splitter is built with its default delimiters, so both results are
/// functions of the text alone.  Where parsing the preamble fails
/// entirely, the whole text stands as the body and no preamble value
/// comes back.
#[verifier::external_body]
pub(crate) fn split_front_matter(text: &str) -> (r: (Option<gray_matter::Pod>, String))
    ensures
        r.1@ == body_of(text@),
        r.0 is Some <==> has_preamble(text@),
{
    let matter = gray_matter::Matter::<gray_matter::engine::YAML>::new();
    match matter.parse::<gray_matter::Pod>(text) {
        Ok(parsed) => (parsed.data, parsed.content),
        Err(_) => (None, text.to_owned()),
    }
}

/// Relies on gray_matter's `Pod::as_hashmap`: the key/value entries of a
/// preamble mapping, in no promised order, or `None` where the preamble
/// is not a mapping.
#[verifier::external_body]
pub(crate) fn pod_entries(pod: &gray_matter::Pod) -> (r: Option<Vec<(String, gray_matter::Pod)>>) {
    match pod.as_hashmap() {
        Ok(m) => Some(m.into_iter().collect()),
        Err(_) => None,
    }
}

/// Relies on gray_matter's `Pod::as_string`: the string a preamble value
/// holds, or `None` where the value is not a string.
#[verifier::external_body]
pub(crate) fn pod_string(pod: &gray_matter::Pod) -> (r: Option<String>) {
    match pod.as_string() {
        Ok(s) => Some(s),
        Err(_) => None,
    }
}

/// Relies on dateparser's `parse` and chrono's `timestamp_millis`: reads
/// a date written in any of many lenient forms and returns its unix time.
/// A string without a full date is completed from the clock and the
/// machine's time zone, so nothing is assumed of the result.
#[verifier::external_body]
pub(crate) fn parse_date(s: &str) -> (r: Option<i64>) {
    match dateparser::parse(s) {
        Ok(dt) => Some(dt.timestamp_millis()),
        Err(_) => None,
    }
}

/// The preamble entries reduced to plain values: each key beside the
/// string its value holds, or `None` where the value is not a string.
pub(crate) fn entry_strings(entries: Vec<(String, gray_matter::Pod)>) -> (r: Vec<
    (String, Option<String>),
>)
    ensures
        r@.len() == entries@.len(),
        forall|i: int| 0 <= i < r@.len() ==> (#[trigger] r@[i]).0 == entries@[i].0,
{
    let ghost orig = entries@;
    let mut rest = entries;
    let mut out: Vec<(String, Option<String>)> = Vec::new();
    while rest.len() > 0
        invariant
            out@.len() + rest@.len() == orig.len(),
            forall|i: int| 0 <= i < rest@.len() ==> #[trigger] rest@[i]
                == orig[out@.len() + i],
            forall|i: int| 0 <= i < out@.len() ==> (#[trigger] out@[i]).0 == orig[i].0,
        decreases rest@.len(),
    {
        let (k, p) = rest.remove(0);
        let s = pod_string(&p);
        out.push((k, s));
    }
    out
}

/// The string under `key` in the preamble entries: the value of the first
/// entry whose key matches, where that value holds a string; absent where
/// the key is missing or its value is no string.
pub open spec fn lookup(s: Seq<(String, Option<String>)>, key: Seq<char>) -> Option<Seq<char>>
    decreases s,
{
    if s.len() == 0 {
        Option::None
    } else if s[0].0@ == key {
        match s[0].1 {
            Option::Some(v) => Option::Some(v@),
            Option::None => Option::None,
        }
    } else {
        lookup(s.drop_first(), key)
    }
}

/// The string under `key` in the entries from position `i` on, computed.
fn lookup_from(entries: &Vec<(String, Option<String>)>, i: usize, key: &String) -> (r: Option<
    String,
>)
    requires
        i <= entries@.len(),
    ensures
        match r {
            Option::Some(s) => lookup(entries@.skip(i as int), key@) == Option::Some(s@),
            Option::None => lookup(entries@.skip(i as int), key@) == Option::<Seq<char>>::None,
        },
    decreases entries@.len() - i,
{
    if i == entries.len() {
        assert(entries@.skip(i as int) =~= Seq::<(String, Option<String>)>::empty());
        return Option::None;
    }
    proof {
        let t = entries@.skip(i as int);
        assert(t[0] == entries@[i as int]);
        assert(t.drop_first() =~= entries@.skip(i as int + 1));
    }
    if entries[i].0.eq(key) {
        match &entries[i].1 {
            Option::Some(v) => Option::Some(v.clone()),
            Option::None => Option::None,
        }
    } else {
        lookup_from(entries, i + 1, key)
    }
}

/// Decodes the plain preamble entries into metadata.  The title is the
/// string under its key, kept as it stands.  Each timestamp is the
/// lenient reading of the string under its key; it is absent where the
/// key is missing, where its value is no string, and where the reading
/// fails — none of these conditions is an error, and none touches the
/// other fields.  Unknown keys are ignored.
pub fn decode_fields(entries: &Vec<(String, Option<String>)>) -> (m: Metadata)
    ensures
        match m.title {
            Option::Some(s) => lookup(entries@, "title"@) == Option::Some(s@),
            Option::None => lookup(entries@, "title"@) == Option::<Seq<char>>::None,
        },
        m.created is Some ==> lookup(entries@, "created"@) is Some,
        lookup(entries@, "created"@) == Option::<Seq<char>>::None ==> m.created
            == Option::<i64>::None,
        m.modified is Some ==> lookup(entries@, "modified"@) is Some,
        lookup(entries@, "modified"@) == Option::<Seq<char>>::None ==> m.modified
            == Option::<i64>::None,
{
    proof {
        assert(entries@.skip(0) =~= entries@);
    }
    let title_key = String::from_str("title");
    let created_key = String::from_str("created");
    let modified_key = String::from_str("modified");
    let title = lookup_from(entries, 0, &title_key);
    let created = match lookup_from(entries, 0, &created_key) {
        Option::Some(s) => parse_date(s.as_str()),
        Option::None => Option::None,
    };
    let modified = match lookup_from(entries, 0, &modified_key) {
        Option::Some(s) => parse_date(s.as_str()),
        Option::None => Option::None,
    };
    Metadata { title, created, modified }
}

/// Decodes an optional preamble value into metadata: no preamble at all,
/// or one that is not a mapping, yields the all-absent default.
pub(crate) fn decode_preamble(pod_opt: &Option<gray_matter::Pod>) -> (m: Metadata)
    ensures
        pod_opt is None ==> m.title is None && m.created is None && m.modified is None,
{
    match pod_opt {
        Option::Some(pod) => match pod_entries(pod) {
            Option::Some(entries) => {
                let plain = entry_strings(entries);
                decode_fields(&plain)
            },
            Option::None => Metadata::absent(),
        },
        Option::None => Metadata::absent(),
    }
}

} // verus!
