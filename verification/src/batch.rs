//! One batch of 1000 consecutive candidate ids: the accumulated records
//! and their rendering as one CSV file.

use vstd::prelude::*;
use vstd::string::StringExecFns;

use crate::csv::append_decimal;
use crate::csv::append_escaped_body;
use crate::csv::append_escaped_title;
use crate::csv::push_char;
use crate::csv::spec_decimal;
use crate::csv::spec_escape_body;
use crate::csv::spec_escape_title;
use crate::record::BatchResult;
use crate::record::Record;

verus! {

/// Number of candidate ids one batch covers.
pub const BATCH_SIZE: u64 = 1000;

/// The header row every batch file starts with.
pub open spec fn spec_header() -> Seq<char> {
    seq!['i', 'd', ',', 't', 'i', 't', 'l', 'e', ',', 'b', 'o', 'd', 'y', '\n']
}

/// One CSV row: the full receipt number, the escaped title and the escaped
/// body, each double-quote-enclosed.
pub open spec fn spec_row(service_center: Seq<char>, r: Record) -> Seq<char> {
    seq!['"'] + service_center + spec_decimal(r.id as nat) + seq!['"', ',', '"']
        + spec_escape_title(r.title@) + seq!['"', ',', '"'] + spec_escape_body(r.body@) + seq![
        '"',
        '\n',
    ]
}

/// The rows of `records`, in order.
pub open spec fn spec_rows(service_center: Seq<char>, records: Seq<Record>) -> Seq<char>
    decreases records.len(),
{
    if records.len() == 0 {
        Seq::empty()
    } else {
        spec_row(service_center, records[0]) + spec_rows(service_center, records.drop_first())
    }
}

/// A whole batch file: the header, then one row per record.
pub open spec fn spec_csv_content(service_center: Seq<char>, records: Seq<Record>) -> Seq<char> {
    spec_header() + spec_rows(service_center, records)
}

/// The file a batch is saved to, inside the configured directory.
pub open spec fn spec_file_name(service_center: Seq<char>, from_id: u64) -> Seq<char> {
    service_center + spec_decimal(from_id as nat) + seq!['.', 'c', 's', 'v']
}

proof fn lemma_rows_push(service_center: Seq<char>, records: Seq<Record>, r: Record)
    ensures
        spec_rows(service_center, records.push(r)) == spec_rows(service_center, records)
            + spec_row(service_center, r),
    decreases records.len(),
{
    if records.len() == 0 {
        assert(records.push(r).drop_first() =~= Seq::<Record>::empty());
        assert(records.push(r)[0] == r);
        assert(spec_rows(service_center, Seq::<Record>::empty()) == Seq::<char>::empty());
        assert(spec_rows(service_center, records.push(r)) =~= spec_rows(service_center, records)
            + spec_row(service_center, r));
    } else {
        assert(records.push(r).drop_first() =~= records.drop_first().push(r));
        lemma_rows_push(service_center, records.drop_first(), r);
        assert(records.push(r)[0] == records[0]);
        assert(spec_rows(service_center, records.push(r)) == spec_row(service_center, records[0])
            + spec_rows(service_center, records.drop_first().push(r)));
        assert(spec_rows(service_center, records) == spec_row(service_center, records[0])
            + spec_rows(service_center, records.drop_first()));
        assert((spec_row(service_center, records[0]) + (spec_rows(
            service_center,
            records.drop_first(),
        ) + spec_row(service_center, r))) =~= ((spec_row(service_center, records[0]) + spec_rows(
            service_center,
            records.drop_first(),
        )) + spec_row(service_center, r)));
        assert(spec_rows(service_center, records.push(r)) =~= spec_rows(service_center, records)
            + spec_row(service_center, r));
    }
}

/// Appends one record's CSV row to `out`.
fn append_row(out: &mut String, service_center: &str, r: &Record)
    ensures
        final(out)@ == old(out)@ + spec_row(service_center@, *r),
{
    push_char(out, '"');
    out.append(service_center);
    append_decimal(out, r.id);
    push_char(out, '"');
    push_char(out, ',');
    push_char(out, '"');
    append_escaped_title(out, r.title.as_str());
    push_char(out, '"');
    push_char(out, ',');
    push_char(out, '"');
    append_escaped_body(out, r.body.as_str());
    push_char(out, '"');
    push_char(out, '\n');
    proof {
        assert(final(out)@ =~= old(out)@ + spec_row(service_center@, *r));
    }
}

/// Strictly ascending by id; in particular, no id occurs twice.
pub open spec fn sorted_strict(s: Seq<Record>) -> bool {
    forall|i: int, j: int| 0 <= i < j < s.len() ==> s[i].id < s[j].id
}

/// A batch: the service-center code, the batch index, and the records the
/// fetch engine accumulated for it, strictly ascending by id once the
/// engine is done.
pub struct Batch {
    pub(crate) service_center: String,
    pub(crate) from_id: u64,
    pub(crate) records: Vec<Record>,
}

impl Batch {
    /// The service-center code, as characters.
    pub closed spec fn spec_service_center(self) -> Seq<char> {
        self.service_center@
    }

    /// The batch index.
    pub closed spec fn spec_from_id(self) -> u64 {
        self.from_id
    }

    /// The accumulated records.
    pub closed spec fn spec_records(self) -> Seq<Record> {
        self.records@
    }

    /// A fresh batch for one batch index, with no records yet.
    pub fn new(service_center: String, from_id: u64) -> (b: Batch)
        ensures
            b.spec_service_center() == service_center@,
            b.spec_from_id() == from_id,
            b.spec_records() == Seq::<Record>::empty(),
    {
        Batch { service_center, from_id, records: Vec::new() }
    }

    /// The service-center code.
    pub fn service_center(&self) -> (r: &String)
        ensures
            r@ == self.spec_service_center(),
    {
        &self.service_center
    }

    /// The batch index.
    pub fn from_id(&self) -> (r: u64)
        ensures
            r == self.spec_from_id(),
    {
        self.from_id
    }

    /// The accumulated records.
    pub fn records(&self) -> (r: &Vec<Record>)
        ensures
            r@ == self.spec_records(),
    {
        &self.records
    }

    /// `Success` exactly when at least one record was obtained.
    pub fn result(&self) -> (r: BatchResult)
        ensures
            r is Success <==> self.spec_records().len() > 0,
    {
        if self.records.len() > 0 {
            BatchResult::Success
        } else {
            BatchResult::Empty
        }
    }

    /// The name of the file this batch is saved to.
    pub fn file_name(&self) -> (r: String)
        ensures
            r@ == spec_file_name(self.spec_service_center(), self.spec_from_id()),
    {
        let mut r = String::new();
        r.append(self.service_center.as_str());
        append_decimal(&mut r, self.from_id);
        push_char(&mut r, '.');
        push_char(&mut r, 'c');
        push_char(&mut r, 's');
        push_char(&mut r, 'v');
        proof {
            assert(r@ =~= spec_file_name(self.spec_service_center(), self.spec_from_id()));
        }
        r
    }

    /// Inserts `r` at its place in the id order, keeping the records
    /// strictly sorted.
    pub(crate) fn insert_record_sorted(&mut self, r: Record)
        requires
            sorted_strict(old(self).spec_records()),
            forall|k: int|
                0 <= k < old(self).spec_records().len() ==> (#[trigger] old(
                    self,
                ).spec_records()[k]).id != r.id,
        ensures
            final(self).spec_from_id() == old(self).spec_from_id(),
            final(self).spec_service_center() == old(self).spec_service_center(),
            sorted_strict(final(self).spec_records()),
            exists|k: int|
                0 <= k <= old(self).spec_records().len() && final(self).spec_records() == old(
                    self,
                ).spec_records().insert(k, r),
    {
        let mut i: usize = 0;
        while i < self.records.len() && self.records[i].id < r.id
            invariant
                self == old(self),
                i <= self.records@.len(),
                forall|k: int| 0 <= k < i ==> (#[trigger] self.records@[k]).id < r.id,
            decreases self.records@.len() - i,
        {
            i = i + 1;
        }
        proof {
            assert(forall|k: int|
                i <= k < self.records@.len() ==> (#[trigger] self.records@[k]).id > r.id) by {
                if i < self.records@.len() {
                    assert(forall|k: int|
                        i < k < self.records@.len() ==> self.records@[i as int].id < (
                        #[trigger] self.records@[k]).id);
                }
            }
        }
        let ghost s = self.records@;
        self.records.insert(i, r);
        proof {
            let t = self.records@;
            assert(t == s.insert(i as int, r));
            assert forall|a: int, b: int| 0 <= a < b < t.len() implies t[a].id < t[b].id by {
                assert(forall|k: int| 0 <= k < i ==> t[k] == s[k]);
                assert(t[i as int] == r);
                assert(forall|k: int| i < k < t.len() ==> t[k] == s[k - 1]);
            }
        }
    }

    /// The whole CSV file for this batch: the header row, then one row per
    /// record in their current order. A batch with no records yields the
    /// header alone.
    pub fn csv_text(&self) -> (r: String)
        ensures
            r@ == spec_csv_content(self.spec_service_center(), self.spec_records()),
            self.spec_records().len() == 0 ==> r@ == spec_header(),
    {
        let mut r = String::new();
        r.append("id,title,body\n");
        proof {
            reveal_strlit("id,title,body\n");
            assert(r@ =~= spec_header());
        }
        let n = self.records.len();
        let mut i: usize = 0;
        proof {
            assert(self.records@.subrange(0, 0) =~= Seq::<Record>::empty());
            assert(r@ =~= spec_header() + spec_rows(self.service_center@, self.records@.subrange(0, 0)));
        }
        while i < n
            invariant
                n == self.records@.len(),
                i <= n,
                r@ == spec_header() + spec_rows(
                    self.service_center@,
                    self.records@.subrange(0, i as int),
                ),
            decreases n - i,
        {
            let ghost done = self.records@.subrange(0, i as int);
            append_row(&mut r, self.service_center.as_str(), &self.records[i]);
            proof {
                assert(self.records@.subrange(0, i + 1) =~= done.push(self.records@[i as int]));
                lemma_rows_push(self.service_center@, done, self.records@[i as int]);
                assert(r@ =~= spec_header() + spec_rows(
                    self.service_center@,
                    self.records@.subrange(0, i + 1),
                ));
            }
            i = i + 1;
        }
        proof {
            assert(self.records@.subrange(0, n as int) =~= self.records@);
            if self.records@.len() == 0 {
                assert(r@ =~= spec_header());
            }
        }
        r
    }
}

} // verus!
