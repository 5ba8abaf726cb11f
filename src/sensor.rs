//! Sensor definitions, timestamped readings and the formatted view of a
//! reading event.
use crate::decimal::digit_char;
use crate::measure::{kind_of, label_text, measure_eq, measure_text, Measure, MeasureKind};
use vstd::prelude::*;
use vstd::string::StringExecFns;

verus! {

#[verifier::external_type_specification]
#[verifier::external_body]
pub struct ExJsonError(serde_json::Error);

pub open spec fn hex_char(d: nat) -> char {
    if d < 10 {
        digit_char(d)
    } else if d == 10 {
        'a'
    } else if d == 11 {
        'b'
    } else if d == 12 {
        'c'
    } else if d == 13 {
        'd'
    } else if d == 14 {
        'e'
    } else {
        'f'
    }
}

/// How one character stands inside a JSON string literal.
pub open spec fn escape_char(c: char) -> Seq<char> {
    if c == '"' {
        seq!['\\', '"']
    } else if c == '\\' {
        seq!['\\', '\\']
    } else if c == '\x08' {
        seq!['\\', 'b']
    } else if c == '\t' {
        seq!['\\', 't']
    } else if c == '\n' {
        seq!['\\', 'n']
    } else if c == '\x0c' {
        seq!['\\', 'f']
    } else if c == '\r' {
        seq!['\\', 'r']
    } else if (c as u32) < 0x20 {
        seq!['\\', 'u', '0', '0', hex_char((c as u32 / 16) as nat), hex_char((c as u32 % 16) as nat)]
    } else {
        seq![c]
    }
}

pub open spec fn escaped(s: Seq<char>) -> Seq<char>
    decreases s.len(),
{
    if s.len() == 0 {
        seq![]
    } else {
        escaped(s.drop_last()) + escape_char(s.last())
    }
}

/// A JSON string literal holding `s`.
pub open spec fn json_quoted(s: Seq<char>) -> Seq<char> {
    seq!['"'] + escaped(s) + seq!['"']
}

/// Relies on serde_json::to_string on a `str`: the compact JSON string
/// literal, with `"`, `\` and the control characters escaped. It writes into
/// a `Vec<u8>`, which never fails, so the result is always `Ok`.
#[verifier::external_body]
fn json_string(s: &str) -> (r: Result<String, serde_json::Error>)
    ensures
        r is Ok,
        r is Ok ==> r->Ok_0@ == json_quoted(s@),
{
    serde_json::to_string(s)
}

/// A failure of the codec while encoding a value.
#[derive(Clone, Copy, Debug, PartialEq, Eq, Structural)]
pub enum EncodeError {
    Codec,
}

/// Static metadata describing a sensor.
#[derive(Clone, Debug, Default)]
pub struct SensorDefinition {
    pub sensor_id: String,
    pub sensor_type: String,
    pub component: String,
}

/// The encoding of a sensor definition: a compact JSON object with the keys
/// `sensor_id`, `sensor_type` and `component`, in that order.
pub open spec fn definition_json(id: Seq<char>, kind: Seq<char>, component: Seq<char>) -> Seq<char> {
    seq!['{', '"', 's', 'e', 'n', 's', 'o', 'r', '_', 'i', 'd', '"', ':'] + json_quoted(id)
        + seq![',', '"', 's', 'e', 'n', 's', 'o', 'r', '_', 't', 'y', 'p', 'e', '"', ':']
        + json_quoted(kind) + seq![',', '"', 'c', 'o', 'm', 'p', 'o', 'n', 'e', 'n', 't', '"', ':']
        + json_quoted(component) + seq!['}']
}

impl SensorDefinition {
    /// Encodes the definition as JSON text.
    pub fn encode(&self) -> (r: Result<String, EncodeError>)
        ensures
            r matches Ok(t) && t@ == definition_json(
                self.sensor_id@,
                self.sensor_type@,
                self.component@,
            ),
    {
        proof {
            reveal_strlit("{\"sensor_id\":");
            reveal_strlit(",\"sensor_type\":");
            reveal_strlit(",\"component\":");
            reveal_strlit("}");
        }
        let id = match json_string(self.sensor_id.as_str()) {
            Ok(t) => t,
            Err(_) => return Err(EncodeError::Codec),
        };
        let kind = match json_string(self.sensor_type.as_str()) {
            Ok(t) => t,
            Err(_) => return Err(EncodeError::Codec),
        };
        let component = match json_string(self.component.as_str()) {
            Ok(t) => t,
            Err(_) => return Err(EncodeError::Codec),
        };
        let mut out = String::from_str("{\"sensor_id\":");
        out.append(id.as_str());
        out.append(",\"sensor_type\":");
        out.append(kind.as_str());
        out.append(",\"component\":");
        out.append(component.as_str());
        out.append("}");
        assert(out@ =~= definition_json(self.sensor_id@, self.sensor_type@, self.component@));
        Ok(out)
    }
}

/// An instant in UTC: whole seconds since the Unix epoch and the nanoseconds
/// past that second (above one billion only within a leap second).
#[derive(Clone, Copy, Debug, PartialEq, Eq, Structural)]
pub struct Timestamp {
    pub secs: i64,
    pub nanos: u32,
}

/// One timestamped reading event of a sensor; the order of `measures` is the
/// order in which they were reported.
#[derive(Clone, Debug)]
pub struct SensorData {
    pub sensor_id: String,
    pub date: Timestamp,
    pub measures: Vec<Measure>,
}

/// The last reading of kind `k` in `ms`, if any.
pub open spec fn last_of_kind(ms: Seq<Measure>, k: MeasureKind) -> Option<Measure>
    decreases ms.len(),
{
    if ms.len() == 0 {
        None
    } else if kind_of(ms.last()) == k {
        Some(ms.last())
    } else {
        last_of_kind(ms.drop_last(), k)
    }
}

/// The entry of kind `k` in the formatted view of `ms`: its label and the
/// text of the last reading of that kind, or nothing when there is none.
pub open spec fn view_entry(ms: Seq<Measure>, k: MeasureKind) -> Seq<(Seq<char>, Seq<char>)> {
    match last_of_kind(ms, k) {
        Some(m) => seq![(label_text(k), measure_text(m))],
        None => seq![],
    }
}

/// The formatted view of `ms`: one entry per kind present, in the order
/// temperature, humidity, unknown.
pub open spec fn formatted_view(ms: Seq<Measure>) -> Seq<(Seq<char>, Seq<char>)> {
    view_entry(ms, MeasureKind::Temperature) + view_entry(ms, MeasureKind::Humidity) + view_entry(
        ms,
        MeasureKind::Unknown,
    )
}

pub open spec fn pairs_view(v: Seq<(String, String)>) -> Seq<(Seq<char>, Seq<char>)> {
    v.map_values(|p: (String, String)| (p.0@, p.1@))
}

/// Two reading events are equal when their identifiers and instants are equal
/// and their readings are equal one by one.
pub open spec fn data_eq(a: SensorData, b: SensorData) -> bool {
    &&& a.sensor_id@ == b.sensor_id@
    &&& a.date == b.date
    &&& a.measures@.len() == b.measures@.len()
    &&& forall|i: int| 0 <= i < a.measures@.len() ==> measure_eq(a.measures@[i], b.measures@[i])
}

fn push_entry(out: &mut Vec<(String, String)>, k: MeasureKind, m: Option<Measure>)
    requires
        m matches Some(x) ==> kind_of(x) == k,
    ensures
        pairs_view(final(out)@) == pairs_view(old(out)@) + match m {
            Some(x) => seq![(label_text(k), measure_text(x))],
            None => seq![],
        },
{
    let ghost before = out@;
    match m {
        Some(x) => {
            out.push((String::from_str(k.label()), x.formatted()));
            assert(pairs_view(out@) =~= pairs_view(before) + seq![(label_text(k), measure_text(x))]);
        },
        None => {
            assert(pairs_view(out@) =~= pairs_view(before) + seq![]);
        },
    }
}

impl SensorData {
    /// The formatted view of the readings: for each kind present, its label
    /// (`temperature`, `humidity`, `unknown`) with the text of the last
    /// reading of that kind, which overrides earlier ones.
    #[must_use]
    pub fn get_formatted_measures(&self) -> (r: Vec<(String, String)>)
        ensures
            pairs_view(r@) == formatted_view(self.measures@),
    {
        let ghost ms = self.measures@;
        let mut temperature: Option<Measure> = None;
        let mut humidity: Option<Measure> = None;
        let mut unknown: Option<Measure> = None;
        let mut i: usize = 0;
        while i < self.measures.len()
            invariant
                ms == self.measures@,
                i <= ms.len(),
                temperature == last_of_kind(ms.take(i as int), MeasureKind::Temperature),
                humidity == last_of_kind(ms.take(i as int), MeasureKind::Humidity),
                unknown == last_of_kind(ms.take(i as int), MeasureKind::Unknown),
            decreases ms.len() - i,
        {
            let m = self.measures[i];
            assert(ms.take(i + 1).drop_last() =~= ms.take(i as int));
            match m.kind() {
                MeasureKind::Temperature => temperature = Some(m),
                MeasureKind::Humidity => humidity = Some(m),
                MeasureKind::Unknown => unknown = Some(m),
            }
            i = i + 1;
        }
        assert(ms.take(i as int) =~= ms);
        proof {
            lemma_last_of_kind_has_kind(ms, MeasureKind::Temperature);
            lemma_last_of_kind_has_kind(ms, MeasureKind::Humidity);
            lemma_last_of_kind_has_kind(ms, MeasureKind::Unknown);
        }
        let mut out: Vec<(String, String)> = Vec::new();
        assert(pairs_view(out@) =~= seq![]);
        push_entry(&mut out, MeasureKind::Temperature, temperature);
        push_entry(&mut out, MeasureKind::Humidity, humidity);
        push_entry(&mut out, MeasureKind::Unknown, unknown);
        assert(pairs_view(out@) =~= formatted_view(ms));
        out
    }
}

impl PartialEq for SensorData {
    fn eq(&self, other: &SensorData) -> (r: bool)
        ensures
            r == data_eq(*self, *other),
    {
        if self.sensor_id != other.sensor_id || self.date != other.date
            || self.measures.len() != other.measures.len() {
            return false;
        }
        let mut i: usize = 0;
        while i < self.measures.len()
            invariant
                i <= self.measures@.len() == other.measures@.len(),
                forall|j: int| 0 <= j < i ==> measure_eq(self.measures@[j], other.measures@[j]),
            decreases self.measures@.len() - i,
        {
            if !self.measures[i].eq(&other.measures[i]) {
                return false;
            }
            i = i + 1;
        }
        true
    }
}

impl vstd::std_specs::cmp::PartialEqSpecImpl for SensorData {
    open spec fn obeys_eq_spec() -> bool {
        true
    }

    open spec fn eq_spec(&self, other: &SensorData) -> bool {
        data_eq(*self, *other)
    }
}

/// Last write wins: after a reading is appended, the formatted view's entry
/// for its kind is that reading's text, whatever came before.
pub proof fn lemma_last_write_wins(ms: Seq<Measure>, m: Measure)
    ensures
        last_of_kind(ms.push(m), kind_of(m)) == Some(m),
        view_entry(ms.push(m), kind_of(m)) == seq![(label_text(kind_of(m)), measure_text(m))],
{
    assert(ms.push(m).drop_last() =~= ms);
}

/// A reading of another kind appended after the others leaves the entry of a
/// kind unchanged.
pub proof fn lemma_other_kind_kept(ms: Seq<Measure>, m: Measure, k: MeasureKind)
    requires
        kind_of(m) != k,
    ensures
        view_entry(ms.push(m), k) == view_entry(ms, k),
{
    assert(ms.push(m).drop_last() =~= ms);
}

/// No two entries of `v` share a label.
pub open spec fn labels_unique(v: Seq<(Seq<char>, Seq<char>)>) -> bool {
    forall|i: int, j: int| 0 <= i < j < v.len() ==> #[trigger] v[i].0 != #[trigger] v[j].0
}

/// The formatted view is a mapping: no label occurs in it twice.
pub proof fn lemma_view_labels_unique(ms: Seq<Measure>)
    ensures
        labels_unique(formatted_view(ms)),
{
    let t = view_entry(ms, MeasureKind::Temperature);
    let h = view_entry(ms, MeasureKind::Humidity);
    let u = view_entry(ms, MeasureKind::Unknown);
    let v = formatted_view(ms);
    assert(label_text(MeasureKind::Temperature).len() == 11);
    assert(label_text(MeasureKind::Humidity).len() == 8);
    assert(label_text(MeasureKind::Unknown).len() == 7);
    assert forall|i: int| 0 <= i < v.len() implies {
        ||| (i < t.len() && v[i].0 == label_text(MeasureKind::Temperature))
        ||| (t.len() <= i < t.len() + h.len() && v[i].0 == label_text(MeasureKind::Humidity))
        ||| (t.len() + h.len() <= i && v[i].0 == label_text(MeasureKind::Unknown))
    } by {
        assert(v == t + h + u);
    }
}

proof fn lemma_last_of_kind_has_kind(ms: Seq<Measure>, k: MeasureKind)
    ensures
        last_of_kind(ms, k) matches Some(x) ==> kind_of(x) == k,
    decreases ms.len(),
{
    if ms.len() > 0 && kind_of(ms.last()) != k {
        lemma_last_of_kind_has_kind(ms.drop_last(), k);
    }
}

} // verus!
