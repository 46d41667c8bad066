// Encoding a metric record as a structured text document for external
// inspection: a fixed key/value shape whose exact text is specified
// character by character.

use vstd::prelude::*;

use crate::metric::{MetricEntryView, MetricRecord, MetricRecordView, MetricValue};

verus! {

/// The digit character of a value below ten.
pub open spec fn digit_char(d: int) -> char {
    if d == 0 {
        '0'
    } else if d == 1 {
        '1'
    } else if d == 2 {
        '2'
    } else if d == 3 {
        '3'
    } else if d == 4 {
        '4'
    } else if d == 5 {
        '5'
    } else if d == 6 {
        '6'
    } else if d == 7 {
        '7'
    } else if d == 8 {
        '8'
    } else {
        '9'
    }
}

/// The decimal rendering of a non-negative number, most significant
/// digit first.
pub open spec fn dec_digits(n: int) -> Seq<char>
    recommends
        n >= 0,
    decreases n,
{
    if n < 10 {
        seq![digit_char(n)]
    } else {
        dec_digits(n / 10).push(digit_char(n % 10))
    }
}

/// One digit as a string slice.
fn digit_str(d: u64) -> (r: &'static str)
    requires
        d < 10,
    ensures
        r@ == seq![digit_char(d as int)],
{
    proof {
        reveal_strlit("0");
        reveal_strlit("1");
        reveal_strlit("2");
        reveal_strlit("3");
        reveal_strlit("4");
        reveal_strlit("5");
        reveal_strlit("6");
        reveal_strlit("7");
        reveal_strlit("8");
        reveal_strlit("9");
    }
    let r = if d == 0 {
        "0"
    } else if d == 1 {
        "1"
    } else if d == 2 {
        "2"
    } else if d == 3 {
        "3"
    } else if d == 4 {
        "4"
    } else if d == 5 {
        "5"
    } else if d == 6 {
        "6"
    } else if d == 7 {
        "7"
    } else if d == 8 {
        "8"
    } else {
        "9"
    };
    proof {
        assert(r@ =~= seq![digit_char(d as int)]);
    }
    r
}

/// Render a number in decimal.
pub fn u64_to_string(n: u64) -> (r: String)
    ensures
        r@ == dec_digits(n as int),
    decreases n,
{
    if n < 10 {
        String::from_str(digit_str(n))
    } else {
        proof {
            assert(n / 10 < n) by (nonlinear_arith)
                requires
                    n >= 10,
            ;
        }
        let mut s = u64_to_string(n / 10);
        s.append(digit_str(n % 10));
        proof {
            assert(dec_digits((n / 10) as int).push(digit_char((n % 10) as int)) =~= dec_digits(
                (n / 10) as int,
            ) + seq![digit_char((n % 10) as int)]);
        }
        s
    }
}

/// The text of one metric value.
pub open spec fn spec_encode_value(v: MetricValue) -> Seq<char> {
    match v {
        MetricValue::Rate { delta, interval_ms } => "\"rate\":{\"delta\":"@ + dec_digits(
            delta as int,
        ) + ",\"interval_ms\":"@ + dec_digits(interval_ms as int) + "}}"@,
        MetricValue::Absolute { value } => "\"value\":"@ + dec_digits(value as int) + "}"@,
    }
}

/// The text of one entry: its name and its value.
pub open spec fn spec_encode_entry(e: MetricEntryView) -> Seq<char> {
    "{\"name\":\""@ + e.name + "\","@ + spec_encode_value(e.value)
}

/// The text of a sequence of entries, comma separated.
pub open spec fn spec_encode_entries(es: Seq<MetricEntryView>) -> Seq<char>
    decreases es.len(),
{
    if es.len() == 0 {
        Seq::empty()
    } else if es.len() == 1 {
        spec_encode_entry(es.last())
    } else {
        spec_encode_entries(es.drop_last()) + ","@ + spec_encode_entry(es.last())
    }
}

/// The text of a whole record.
pub open spec fn spec_encode_record(rec: MetricRecordView) -> Seq<char> {
    "{\"timestamp_ms\":"@ + dec_digits(rec.timestamp_ms as int) + ",\"entries\":["@
        + spec_encode_entries(rec.entries) + "]}"@
}

/// Render one entry.
fn encode_entry(e: &crate::metric::MetricEntry) -> (r: String)
    ensures
        r@ == spec_encode_entry(e@),
{
    let mut s = String::from_str("{\"name\":\"");
    s.append(e.name.as_str());
    s.append("\",");
    match e.value {
        MetricValue::Rate { delta, interval_ms } => {
            s.append("\"rate\":{\"delta\":");
            let d = u64_to_string(delta);
            s.append(d.as_str());
            s.append(",\"interval_ms\":");
            let iv = u64_to_string(interval_ms);
            s.append(iv.as_str());
            s.append("}}");
        },
        MetricValue::Absolute { value } => {
            s.append("\"value\":");
            let v = u64_to_string(value);
            s.append(v.as_str());
            s.append("}");
        },
    }
    s
}

impl MetricRecord {
    /// Render this record as its structured text document.
    pub fn encode(&self) -> (r: String)
        ensures
            r@ == spec_encode_record(self@),
    {
        let mut s = String::from_str("{\"timestamp_ms\":");
        let ts = u64_to_string(self.timestamp_ms);
        s.append(ts.as_str());
        s.append(",\"entries\":[");
        let n = self.entries.len();
        let mut i: usize = 0;
        while i < n
            invariant
                n == self.entries@.len(),
                0 <= i <= n,
                s@ =~= "{\"timestamp_ms\":"@ + dec_digits(self.timestamp_ms as int)
                    + ",\"entries\":["@ + spec_encode_entries(self@.entries.take(i as int)),
            decreases n - i,
        {
            if i > 0 {
                s.append(",");
            }
            let piece = encode_entry(&self.entries[i]);
            s.append(piece.as_str());
            proof {
                assert(self@.entries.take(i + 1).drop_last() =~= self@.entries.take(i as int));
                assert(self@.entries.take(i + 1).last() == self@.entries[i as int]);
                if i == 0 {
                    assert(spec_encode_entries(self@.entries.take(1)) =~= spec_encode_entry(
                        self@.entries[0],
                    ));
                }
                assert(s@ =~= "{\"timestamp_ms\":"@ + dec_digits(self.timestamp_ms as int)
                    + ",\"entries\":["@ + spec_encode_entries(self@.entries.take(i + 1)));
            }
            i += 1;
        }
        s.append("]}");
        proof {
            assert(self@.entries.take(n as int) =~= self@.entries);
            assert(s@ =~= spec_encode_record(self@));
        }
        s
    }
}

} // verus!
