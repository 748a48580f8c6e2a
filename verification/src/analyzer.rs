use vstd::prelude::*;

use crate::classify::{classify_and_size, verdict_of, Verdict};
use crate::error::AppError;
use crate::value::fields_size;
use crate::value::JsonValue;
use crate::value::TypeRecord;

verus! {

/// Running statistics for one type name, as stored: wide unsigned
/// counters, so that accumulation over arbitrarily long streams does not
/// realistically overflow.
#[derive(Debug, Clone, PartialEq)]
pub struct TypeData {
    pub count: u128,
    pub byte_size: u128,
}

/// Statistics as the specification views them: unbounded naturals, so
/// the table model itself never wraps.
pub struct Stats {
    pub count: nat,
    pub byte_size: nat,
}

impl View for TypeData {
    type V = Stats;

    open spec fn view(&self) -> Stats {
        Stats { count: self.count as nat, byte_size: self.byte_size as nat }
    }
}

/// How recording one classified record changes the table model: a known
/// type name gains one occurrence and the record's size; a new one is
/// entered with a count of one.
pub open spec fn record_model(
    m: Map<Seq<char>, Stats>,
    name: Seq<char>,
    size: nat,
) -> Map<Seq<char>, Stats> {
    if m.contains_key(name) {
        m.insert(
            name,
            Stats { count: m[name].count + 1, byte_size: m[name].byte_size + size },
        )
    } else {
        m.insert(name, Stats { count: 1, byte_size: size })
    }
}

/// The table a sequence of stored entries stands for.
spec fn table_model(entries: Seq<(String, TypeData)>) -> Map<Seq<char>, Stats>
    decreases entries,
{
    if entries.len() == 0 {
        Map::empty()
    } else {
        table_model(entries.drop_last()).insert(entries.last().0@, entries.last().1@)
    }
}

/// Some stored entry carries the given type name.
spec fn has_name(entries: Seq<(String, TypeData)>, name: Seq<char>) -> bool {
    exists|i: int| 0 <= i < entries.len() && entries[i].0@ == name
}

/// No two stored entries carry the same type name.
spec fn distinct_names(entries: Seq<(String, TypeData)>) -> bool {
    forall|i: int, j: int| 0 <= i < j < entries.len() ==> entries[i].0@ != entries[j].0@
}

proof fn lemma_table_model_keys(entries: Seq<(String, TypeData)>)
    ensures
        forall|name: Seq<char>|
            #[trigger] table_model(entries).contains_key(name) <==> has_name(entries, name),
    decreases entries,
{
    if entries.len() > 0 {
        let prev = entries.drop_last();
        lemma_table_model_keys(prev);
        assert forall|name: Seq<char>|
            #[trigger] table_model(entries).contains_key(name) implies has_name(
            entries,
            name,
        ) by {
            if name == entries.last().0@ {
                assert(entries[entries.len() - 1].0@ == name);
            } else {
                assert(table_model(prev).contains_key(name));
                assert(has_name(prev, name));
                let i = choose|i: int| 0 <= i < prev.len() && prev[i].0@ == name;
                assert(entries[i].0@ == name);
            }
        }
        assert forall|name: Seq<char>| has_name(entries, name) implies #[trigger] table_model(
            entries,
        ).contains_key(name) by {
            let i = choose|i: int| 0 <= i < entries.len() && entries[i].0@ == name;
            if i < entries.len() - 1 {
                assert(prev[i].0@ == name);
                assert(has_name(prev, name));
                assert(table_model(prev).contains_key(name));
            }
        }
    }
}

proof fn lemma_table_model_at(entries: Seq<(String, TypeData)>, i: int)
    requires
        0 <= i < entries.len(),
        distinct_names(entries),
    ensures
        table_model(entries).contains_key(entries[i].0@),
        table_model(entries)[entries[i].0@] == entries[i].1@,
    decreases entries,
{
    if i < entries.len() - 1 {
        assert(distinct_names(entries.drop_last()));
        lemma_table_model_at(entries.drop_last(), i);
        assert(entries[i].0@ != entries.last().0@);
    }
}

proof fn lemma_table_model_update(entries: Seq<(String, TypeData)>, i: int, entry: (String, TypeData))
    requires
        0 <= i < entries.len(),
        distinct_names(entries),
        entry.0@ == entries[i].0@,
    ensures
        table_model(entries.update(i, entry)) == table_model(entries).insert(entry.0@, entry.1@),
    decreases entries,
{
    let s2 = entries.update(i, entry);
    if i == entries.len() - 1 {
        assert(s2.drop_last() =~= entries.drop_last());
        assert(s2.last() == entry);
        assert(table_model(s2) =~= table_model(entries).insert(entry.0@, entry.1@));
    } else {
        assert(s2.drop_last() =~= entries.drop_last().update(i, entry));
        assert(distinct_names(entries.drop_last()));
        lemma_table_model_update(entries.drop_last(), i, entry);
        assert(s2.last() == entries.last());
        assert(entry.0@ != entries.last().0@);
        assert(table_model(s2) =~= table_model(entries).insert(entry.0@, entry.1@));
    }
}

/// The accumulator: owns the table from type name to running statistics.
///
/// Each mutating method takes the accumulator by exclusive borrow, so an
/// update is atomic: no caller can observe a half-applied entry.  The
/// update itself is computed before the table is touched, so no failure
/// can leave the table inconsistent.
#[derive(Debug, Default)]
pub struct TypeAnalyzer {
    type_map: Vec<(String, TypeData)>,
}

impl View for TypeAnalyzer {
    type V = Map<Seq<char>, Stats>;

    closed spec fn view(&self) -> Map<Seq<char>, Stats> {
        table_model(self.type_map@)
    }
}

/// The wide counters can absorb this line: whatever the classification
/// decides about it, the arithmetic recording it stays within `u128`.
pub open spec fn line_fits(line: Seq<char>, m: Map<Seq<char>, Stats>) -> bool {
    verdict_of(line) matches Verdict::Classified(name, size) ==> size <= u128::MAX && (
    m.contains_key(name) ==> m[name].count + 1 <= u128::MAX && m[name].byte_size + size
        <= u128::MAX)
}

/// What `check_line` leaves behind for one line: on a classified line
/// the table gains the record's contribution; on any failure the table
/// is exactly what it was and the error names the reason and carries the
/// line.
pub open spec fn check_line_post(
    line: Seq<char>,
    pre: Map<Seq<char>, Stats>,
    post: Map<Seq<char>, Stats>,
    r: Result<(), AppError>,
) -> bool {
    match verdict_of(line) {
        Verdict::Unparsable => r matches Err(AppError::SerdeJsonError(l)) && l@ == line && post
            == pre,
        Verdict::NoType => r matches Err(AppError::NoFieldTypeInJson(l)) && l@ == line && post
            == pre,
        Verdict::TypeNotText => r matches Err(AppError::FieldTypeIsNotString(l)) && l@ == line
            && post == pre,
        Verdict::Classified(name, size) => r is Ok && post == record_model(pre, name, size),
    }
}

impl TypeAnalyzer {
    /// The stored table is well formed: one entry per type name.
    pub closed spec fn wf(&self) -> bool {
        distinct_names(self.type_map@)
    }

    /// A fresh analyzer with an empty table.
    pub fn new() -> (r: Self)
        ensures
            r.wf(),
            r@ == Map::<Seq<char>, Stats>::empty(),
    {
        TypeAnalyzer { type_map: Vec::new() }
    }

    /// Index of the entry carrying the given name, if any.
    fn find_index(&self, name: &String) -> (r: Option<usize>)
        ensures
            match r {
                Option::Some(i) => i < self.type_map@.len() && self.type_map@[i as int].0@
                    == name@,
                Option::None => !has_name(self.type_map@, name@),
            },
    {
        let mut i: usize = 0;
        while i < self.type_map.len()
            invariant
                i <= self.type_map@.len(),
                forall|j: int| 0 <= j < i ==> self.type_map@[j].0@ != name@,
            decreases self.type_map@.len() - i,
        {
            if self.type_map[i].0 == *name {
                return Some(i);
            }
            i = i + 1;
        }
        None
    }

    /// Folds one classified record into the table: a known type name
    /// gains one occurrence and `byte_size` more bytes; an unknown one
    /// is entered with a count of one.  The preconditions ask only that
    /// the wide counters do not overflow.  Cannot fail; the table is
    /// never left half-updated.
    pub fn record(&mut self, name: String, byte_size: u128)
        requires
            old(self).wf(),
            old(self)@.contains_key(name@) ==> old(self)@[name@].count + 1 <= u128::MAX && old(
                self,
            )@[name@].byte_size + byte_size <= u128::MAX,
        ensures
            final(self).wf(),
            final(self)@ == record_model(old(self)@, name@, byte_size as nat),
    {
        proof {
            lemma_table_model_keys(self.type_map@);
        }
        match self.find_index(&name) {
            Some(i) => {
                proof {
                    lemma_table_model_at(self.type_map@, i as int);
                    assert(has_name(self.type_map@, name@));
                }
                let c = self.type_map[i].1.count;
                let b = self.type_map[i].1.byte_size;
                proof {
                    lemma_table_model_update(
                        self.type_map@,
                        i as int,
                        (name, TypeData { count: (c + 1) as u128, byte_size: (b + byte_size) as u128 }),
                    );
                }
                self.type_map[i] = (name, TypeData { count: c + 1, byte_size: b + byte_size });
                proof {
                    assert forall|p: int, q: int|
                        0 <= p < q < self.type_map@.len() implies self.type_map@[p].0@
                        != self.type_map@[q].0@ by {
                        assert(old(self).type_map@[p].0@ != old(self).type_map@[q].0@);
                    }
                }
            },
            None => {
                self.type_map.push((name, TypeData { count: 1, byte_size }));
                proof {
                    assert(self.type_map@.drop_last() =~= old(self).type_map@);
                    assert(self.type_map@.last() == (name, TypeData { count: 1, byte_size }));
                    assert(self@ =~= record_model(old(self)@, name@, byte_size as nat));
                    assert forall|p: int, q: int|
                        0 <= p < q < self.type_map@.len() implies self.type_map@[p].0@
                        != self.type_map@[q].0@ by {
                        if q == self.type_map@.len() - 1 {
                            assert(old(self).type_map@[p].0@ != name@);
                        } else {
                            assert(old(self).type_map@[p].0@ != old(self).type_map@[q].0@);
                        }
                    }
                }
            },
        }
    }

    /// Classifies one line and, on success, records its contribution.
    /// On failure the table is untouched and the classification error is
    /// propagated unchanged.
    pub fn check_line(&mut self, line: String) -> (r: Result<(), AppError>)
        requires
            old(self).wf(),
            line_fits(line@, old(self)@),
        ensures
            final(self).wf(),
            check_line_post(line@, old(self)@, final(self)@, r),
    {
        match classify_and_size(&line) {
            Ok(p) => {
                self.record(p.0, p.1);
                Ok(())
            },
            Err(e) => Err(e),
        }
    }

    /// Like `check_line`, but first decides whether the wide counters
    /// can absorb the line.  Returns `None`, with the table untouched,
    /// exactly when they cannot; otherwise hands back what `check_line`
    /// returned.
    pub fn try_check_line(&mut self, line: String) -> (r: Option<Result<(), AppError>>)
        requires
            old(self).wf(),
        ensures
            final(self).wf(),
            match r {
                Option::None => !line_fits(line@, old(self)@) && final(self)@ == old(self)@,
                Option::Some(res) => line_fits(line@, old(self)@) && check_line_post(
                    line@,
                    old(self)@,
                    final(self)@,
                    res,
                ),
            },
    {
        match crate::parse::parse_record(&line) {
            None => Some(self.check_line(line)),
            Some(record) => {
                match crate::classify::find_type(&record.fields) {
                    None => Some(self.check_line(line)),
                    Some(i) => {
                        match &record.fields[i].1 {
                            JsonValue::Text(text) => {
                                match crate::classify::try_payload_size(&record.fields) {
                                    None => None,
                                    Some(size) => {
                                        proof {
                                            lemma_table_model_keys(self.type_map@);
                                        }
                                        match self.find_index(text) {
                                            None => Some(self.check_line(line)),
                                            Some(j) => {
                                                proof {
                                                    lemma_table_model_at(self.type_map@, j as int);
                                                    assert(has_name(self.type_map@, text@));
                                                }
                                                let c = self.type_map[j].1.count;
                                                let b = self.type_map[j].1.byte_size;
                                                if c == u128::MAX || b > u128::MAX - size {
                                                    None
                                                } else {
                                                    Some(self.check_line(line))
                                                }
                                            },
                                        }
                                    },
                                }
                            },
                            _ => Some(self.check_line(line)),
                        }
                    },
                }
            },
        }
    }

    /// A consistent snapshot of the table: one row per accumulated type
    /// name, carrying the name, its occurrence count and its cumulative
    /// byte size.  Row order is not part of the contract.
    pub fn report(&self) -> (rows: Vec<(String, u128, u128)>)
        requires
            self.wf(),
        ensures
            forall|i: int|
                0 <= i < rows@.len() ==> self@.contains_key(#[trigger] rows@[i].0@) && self@[rows@[
                i].0@] == (Stats { count: rows@[i].1 as nat, byte_size: rows@[i].2 as nat }),
            forall|i: int, j: int| 0 <= i < j < rows@.len() ==> rows@[i].0@ != rows@[j].0@,
            forall|name: Seq<char>|
                #[trigger] self@.contains_key(name) ==> exists|i: int|
                    0 <= i < rows@.len() && rows@[i].0@ == name,
    {
        let mut rows: Vec<(String, u128, u128)> = Vec::new();
        let mut i: usize = 0;
        while i < self.type_map.len()
            invariant
                i <= self.type_map@.len(),
                rows@.len() == i,
                self.wf(),
                forall|j: int|
                    0 <= j < i ==> (#[trigger] rows@[j]).0@ == self.type_map@[j].0@ && rows@[j].1
                        == self.type_map@[j].1.count && rows@[j].2 == self.type_map@[j].1.byte_size,
            decreases self.type_map@.len() - i,
        {
            let entry_name = self.type_map[i].0.clone();
            let entry_count = self.type_map[i].1.count;
            let entry_size = self.type_map[i].1.byte_size;
            rows.push((entry_name, entry_count, entry_size));
            i = i + 1;
        }
        proof {
            lemma_table_model_keys(self.type_map@);
            assert forall|k: int| 0 <= k < rows@.len() implies self@.contains_key(
                #[trigger] rows@[k].0@,
            ) && self@[rows@[k].0@] == (Stats {
                count: rows@[k].1 as nat,
                byte_size: rows@[k].2 as nat,
            }) by {
                lemma_table_model_at(self.type_map@, k);
            }
            assert forall|name: Seq<char>| #[trigger] self@.contains_key(name) implies exists|k: int|
                0 <= k < rows@.len() && rows@[k].0@ == name by {
                let k = choose|k: int|
                    0 <= k < self.type_map@.len() && self.type_map@[k].0@ == name;
                assert(rows@[k].0@ == name);
            }
        }
        rows
    }

    /// The estimated byte size of a whole record: the recursive sum over
    /// all its fields, nulls free, nested mappings recursed into, every
    /// other value at the fixed leaf cost.
    pub fn calculate_size(record: &TypeRecord) -> (r: u128)
        requires
            fields_size(record@) <= u128::MAX,
        ensures
            r == fields_size(record@),
    {
        match crate::value::try_fields_size(&record.fields) {
            Some(n) => n,
            None => vstd::pervasive::unreached(),
        }
    }
}

/// The table model after a run of classified records, applied in order
/// to an empty table.
pub open spec fn accumulate(pairs: Seq<(Seq<char>, nat)>) -> Map<Seq<char>, Stats>
    decreases pairs,
{
    if pairs.len() == 0 {
        Map::empty()
    } else {
        record_model(accumulate(pairs.drop_last()), pairs.last().0, pairs.last().1)
    }
}

/// How many records of a run carry the given type name.
pub open spec fn count_matches(pairs: Seq<(Seq<char>, nat)>, name: Seq<char>) -> nat
    decreases pairs,
{
    if pairs.len() == 0 {
        0
    } else {
        count_matches(pairs.drop_last(), name) + if pairs.last().0 == name {
            1nat
        } else {
            0nat
        }
    }
}

/// The total size carried by the records of a run with the given name.
pub open spec fn size_matches(pairs: Seq<(Seq<char>, nat)>, name: Seq<char>) -> nat
    decreases pairs,
{
    if pairs.len() == 0 {
        0
    } else {
        size_matches(pairs.drop_last(), name) + if pairs.last().0 == name {
            pairs.last().1
        } else {
            0nat
        }
    }
}

proof fn lemma_zero_count_zero_size(pairs: Seq<(Seq<char>, nat)>, name: Seq<char>)
    ensures
        count_matches(pairs, name) == 0 ==> size_matches(pairs, name) == 0,
    decreases pairs,
{
    if pairs.len() > 0 {
        lemma_zero_count_zero_size(pairs.drop_last(), name);
    }
}

/// After any run of classified records, the table holds exactly one
/// entry per distinct type name that occurred, whose count is the number
/// of records bearing that name and whose size is their total size.
pub proof fn lemma_accumulate_statistics(pairs: Seq<(Seq<char>, nat)>)
    ensures
        forall|name: Seq<char>|
            #[trigger] accumulate(pairs).contains_key(name) <==> count_matches(pairs, name) > 0,
        forall|name: Seq<char>|
            #[trigger] accumulate(pairs).contains_key(name) ==> accumulate(pairs)[name] == (Stats {
                count: count_matches(pairs, name),
                byte_size: size_matches(pairs, name),
            }),
    decreases pairs,
{
    if pairs.len() > 0 {
        lemma_accumulate_statistics(pairs.drop_last());
        let prev = accumulate(pairs.drop_last());
        let last = pairs.last();
        assert forall|name: Seq<char>|
            #[trigger] accumulate(pairs).contains_key(name) implies (count_matches(pairs, name)
            > 0) by {
            if name != last.0 {
                assert(prev.contains_key(name));
            }
        }
        assert forall|name: Seq<char>| count_matches(pairs, name) > 0 implies #[trigger] accumulate(
            pairs,
        ).contains_key(name) by {}
        assert forall|name: Seq<char>|
            #[trigger] accumulate(pairs).contains_key(name) implies accumulate(pairs)[name] == (
        Stats { count: count_matches(pairs, name), byte_size: size_matches(pairs, name) }) by {
            if name == last.0 {
                if !prev.contains_key(name) {
                    assert(count_matches(pairs.drop_last(), name) == 0);
                    lemma_zero_count_zero_size(pairs.drop_last(), name);
                }
            } else {
                assert(prev.contains_key(name));
                assert(accumulate(pairs)[name] == prev[name]);
            }
        }
    }
}

/// Recording the same classified record twice raises its count by
/// exactly two and its size by exactly twice the single record's size,
/// and leaves every other entry untouched.
pub proof fn lemma_record_twice(m: Map<Seq<char>, Stats>, name: Seq<char>, size: nat)
    ensures
        ({
            let once = record_model(m, name, size);
            let twice = record_model(once, name, size);
            &&& twice.contains_key(name)
            &&& twice[name].count == (if m.contains_key(name) {
                m[name].count
            } else {
                0nat
            }) + 2
            &&& twice[name].byte_size == (if m.contains_key(name) {
                m[name].byte_size
            } else {
                0nat
            }) + 2 * size
            &&& forall|other: Seq<char>|
                other != name ==> ((twice.contains_key(other) <==> m.contains_key(other)) && (
                m.contains_key(other) ==> twice[other] == m[other]))
        }),
{
}

} // verus!
