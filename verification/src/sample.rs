// The Sample data model: an immutable, timestamped reading from one
// source, holding an ordered collection of named cumulative counters.

use vstd::prelude::*;

verus! {

/// One named cumulative counter inside a Sample.
pub struct Reading {
    pub name: String,
    pub value: u64,
}

/// The mathematical model of a `Reading`.
pub ghost struct ReadingView {
    pub name: Seq<char>,
    pub value: u64,
}

impl View for Reading {
    type V = ReadingView;

    open spec fn view(&self) -> ReadingView {
        ReadingView { name: self.name@, value: self.value }
    }
}

impl DeepView for Reading {
    type V = ReadingView;

    open spec fn deep_view(&self) -> ReadingView {
        self@
    }
}

/// An immutable, timestamped raw reading from one source.  Timestamps are
/// milliseconds; counters are non-negative and, for differencing sources,
/// expected (though not required) to be monotonically non-decreasing.
pub struct Sample {
    pub timestamp_ms: u64,
    pub readings: Vec<Reading>,
}

/// The mathematical model of a `Sample`.
pub ghost struct SampleView {
    pub timestamp_ms: u64,
    pub readings: Seq<ReadingView>,
}

impl View for Sample {
    type V = SampleView;

    open spec fn view(&self) -> SampleView {
        SampleView { timestamp_ms: self.timestamp_ms, readings: self.readings.deep_view() }
    }
}

impl DeepView for Sample {
    type V = SampleView;

    open spec fn deep_view(&self) -> SampleView {
        self@
    }
}

/// The value of the first reading named `name`, if any.
pub open spec fn lookup_reading(rs: Seq<ReadingView>, name: Seq<char>) -> Option<u64>
    decreases rs.len(),
{
    if rs.len() == 0 {
        None
    } else if rs[0].name == name {
        Some(rs[0].value)
    } else {
        lookup_reading(rs.drop_first(), name)
    }
}

/// Whether the sample holds a counter named `name`.
pub open spec fn sample_has_key(s: SampleView, name: Seq<char>) -> bool {
    lookup_reading(s.readings, name) is Some
}

/// A key is present exactly when some reading carries it.
pub proof fn lemma_lookup_some_iff(rs: Seq<ReadingView>, name: Seq<char>)
    ensures
        lookup_reading(rs, name) is Some <==> exists|i: int|
            0 <= i < rs.len() && rs[i].name == name,
    decreases rs.len(),
{
    if rs.len() > 0 {
        lemma_lookup_some_iff(rs.drop_first(), name);
        if rs[0].name == name {
        } else {
            if lookup_reading(rs.drop_first(), name) is Some {
                let i = choose|i: int|
                    0 <= i < rs.drop_first().len() && rs.drop_first()[i].name == name;
                assert(rs[i + 1].name == name);
            } else {
                if exists|i: int| 0 <= i < rs.len() && rs[i].name == name {
                    let i = choose|i: int| 0 <= i < rs.len() && rs[i].name == name;
                    assert(rs.drop_first()[i - 1].name == name);
                }
            }
        }
    }
}

/// Compare two string slices character by character.
pub fn str_eq(a: &str, b: &str) -> (r: bool)
    ensures
        r == (a@ == b@),
{
    let a_len = a.unicode_len();
    let b_len = b.unicode_len();
    if a_len != b_len {
        return false;
    }
    let mut i: usize = 0;
    while i < a_len
        invariant
            a_len == a@.len(),
            b_len == b@.len(),
            a_len == b_len,
            0 <= i <= a_len,
            forall|j: int| 0 <= j < i ==> a@[j] == b@[j],
        decreases a_len - i,
    {
        if a.get_char(i) != b.get_char(i) {
            return false;
        }
        i += 1;
    }
    proof {
        assert(a@ =~= b@);
    }
    true
}

impl Sample {
    /// Find the value of the first reading named `name`.
    pub fn find_reading(&self, name: &str) -> (r: Option<u64>)
        ensures
            r == lookup_reading(self@.readings, name@),
    {
        let n = self.readings.len();
        let mut i: usize = 0;
        proof {
            assert(self@.readings.skip(0) =~= self@.readings);
        }
        while i < n
            invariant
                n == self.readings.len(),
                0 <= i <= n,
                lookup_reading(self@.readings.skip(i as int), name@) == lookup_reading(
                    self@.readings,
                    name@,
                ),
            decreases n - i,
        {
            assert(self@.readings.skip(i as int)[0] == self@.readings[i as int]);
            if str_eq(self.readings[i].name.as_str(), name) {
                return Some(self.readings[i].value);
            }
            proof {
                assert(self@.readings.skip(i as int).drop_first() =~= self@.readings.skip(
                    i + 1,
                ));
            }
            i += 1;
        }
        None
    }
}

} // verus!
