//! The counter sources, one per platform family, each reduced to one reading
//! `(received, transmitted)` of cumulative bytes. A source that is absent or
//! unreadable is passed as `None` and reads as `(0, 0)`: a reading never fails.

use vstd::prelude::*;
use crate::json::{json_u64_member, u64_member};
use crate::text::{
    chars_of, decimal_u64, fields, lines, parse_decimal, split_fields, split_lines, views,
};

verus! {

/// `v`, or zero where there is none.
pub open spec fn or_zero(v: Option<u64>) -> u64 {
    match v {
        Some(n) => n,
        None => 0,
    }
}

/// The number that a field holds; zero where it holds none.
pub open spec fn field_value(field: Seq<char>) -> u64 {
    or_zero(decimal_u64(field))
}

/// `n`, or `u64::MAX` where it is larger.
pub open spec fn capped(n: nat) -> u64 {
    if n > u64::MAX {
        u64::MAX
    } else {
        n as u64
    }
}

/// Whether a row's first field names the loopback interface.
pub open spec fn is_loopback_name(field: Seq<char>) -> bool {
    field.len() >= 3 && field[0] == 'l' && field[1] == 'o' && field[2] == ':'
}

/// Whether a row of the interface table counts towards the totals: it has at
/// least ten fields and is not the loopback interface's.
pub open spec fn counted_row(row: Seq<char>) -> bool {
    fields(row).len() >= 10 && !is_loopback_name(fields(row)[0])
}

/// The sum of field `k` over the counted rows of `rows`.
pub open spec fn column_sum(rows: Seq<Seq<char>>, k: int) -> nat
    decreases rows.len(),
{
    if rows.len() == 0 {
        0
    } else {
        column_sum(rows.drop_last(), k) + if counted_row(rows.last()) {
            field_value(fields(rows.last())[k]) as nat
        } else {
            0
        }
    }
}

/// The rows of the interface table: its lines after the two header lines.
pub open spec fn table_rows(content: Seq<char>) -> Seq<Seq<char>> {
    if lines(content).len() <= 2 {
        Seq::empty()
    } else {
        lines(content).skip(2)
    }
}

/// The reading that an interface table gives: received bytes are field 1 and
/// transmitted bytes field 9 of each counted row, summed (and held at
/// `u64::MAX` rather than wrapping).
pub open spec fn interface_table_reading(content: Seq<char>) -> (u64, u64) {
    (capped(column_sum(table_rows(content), 1)), capped(column_sum(table_rows(content), 9)))
}

fn is_loopback_field(field: &Vec<char>) -> (r: bool)
    ensures
        r == is_loopback_name(field@),
{
    field.len() >= 3 && field[0] == 'l' && field[1] == 'o' && field[2] == ':'
}

fn value_of_field(field: &Vec<char>) -> (r: u64)
    ensures
        r == field_value(field@),
{
    match parse_decimal(field) {
        Some(n) => n,
        None => 0,
    }
}

/// Reads the per-interface statistics table (two header lines, then one row
/// per interface) into the total bytes received and transmitted over all
/// interfaces but loopback; `None`, an absent table, reads as `(0, 0)`.
pub fn interface_table_counters(content: Option<&str>) -> (r: (u64, u64))
    ensures
        r == match content {
            Some(c) => interface_table_reading(c@),
            None => (0, 0),
        },
{
    let content = match content {
        Some(c) => c,
        None => return (0, 0),
    };
    let all = chars_of(content);
    let rows = split_lines(&all);
    let ghost ls = lines(content@);
    assert(views(rows@) == ls);
    if rows.len() <= 2 {
        return (0, 0);
    }
    let mut received: u64 = 0;
    let mut transmitted: u64 = 0;
    let mut j: usize = 2;
    assert(ls.subrange(2, 2) =~= Seq::<Seq<char>>::empty());
    while j < rows.len()
        invariant
            views(rows@) == ls,
            2 <= j <= rows.len(),
            received == capped(column_sum(ls.subrange(2, j as int), 1)),
            transmitted == capped(column_sum(ls.subrange(2, j as int), 9)),
        decreases rows.len() - j,
    {
        let row_fields = split_fields(&rows[j]);
        let ghost row = ls[j as int];
        assert(rows@[j as int]@ == row);
        assert(ls.subrange(2, j + 1).drop_last() =~= ls.subrange(2, j as int));
        assert(ls.subrange(2, j + 1).last() == row);
        if row_fields.len() >= 10 && !is_loopback_field(&row_fields[0]) {
            assert(row_fields@[0]@ == fields(row)[0]);
            assert(row_fields@[1]@ == fields(row)[1]);
            assert(row_fields@[9]@ == fields(row)[9]);
            received = received.saturating_add(value_of_field(&row_fields[1]));
            transmitted = transmitted.saturating_add(value_of_field(&row_fields[9]));
        } else if row_fields.len() >= 10 {
            assert(row_fields@[0]@ == fields(row)[0]);
        }
        j = j + 1;
    }
    assert(ls.subrange(2, ls.len() as int) =~= ls.skip(2));
    (received, transmitted)
}

/// The reading that a per-interface statistics report gives: its second line
/// (the first is a header) must have at least ten fields, of which field 6
/// holds the bytes received and field 9 the bytes transmitted. `None` for a
/// report without such a line.
pub open spec fn interface_report_reading(output: Seq<char>) -> Option<(u64, u64)> {
    let ls = lines(output);
    if ls.len() > 1 && fields(ls[1]).len() >= 10 {
        Some((field_value(fields(ls[1])[6]), field_value(fields(ls[1])[9])))
    } else {
        None
    }
}

/// Reads the report that the statistics command printed for one interface;
/// `None` where it has no usable data line, so that the next candidate
/// interface is tried.
pub fn interface_report_counters(output: &str) -> (r: Option<(u64, u64)>)
    ensures
        r == interface_report_reading(output@),
{
    let all = chars_of(output);
    let rows = split_lines(&all);
    let ghost ls = lines(output@);
    if rows.len() > 1 {
        let row_fields = split_fields(&rows[1]);
        assert(rows@[1]@ == ls[1]);
        if row_fields.len() >= 10 {
            assert(row_fields@[6]@ == fields(ls[1])[6]);
            assert(row_fields@[9]@ == fields(ls[1])[9]);
            return Some((value_of_field(&row_fields[6]), value_of_field(&row_fields[9])));
        }
    }
    None
}

/// The interfaces whose reports are tried, in order, until one gives a
/// reading: a fixed guess at the host's primary interface.
pub fn interface_report_candidates() -> (r: Vec<&'static str>)
    ensures
        r@.len() == 2,
        r@[0]@ == "en0"@,
        r@[1]@ == "en1"@,
{
    let mut r: Vec<&'static str> = Vec::new();
    r.push("en0");
    r.push("en1");
    r
}

/// The reading of an adapter statistics record from its members' values:
/// each count is zero where its member is missing or not a `u64`.
pub fn adapter_reading(received: Option<u64>, sent: Option<u64>) -> (r: (u64, u64))
    ensures
        r == (or_zero(received), or_zero(sent)),
{
    let received = match received {
        Some(n) => n,
        None => 0,
    };
    let sent = match sent {
        Some(n) => n,
        None => 0,
    };
    (received, sent)
}

/// Reads the adapter statistics record (a JSON object with the members
/// `ReceivedBytes` and `SentBytes`); `None`, an absent record, reads as `(0, 0)`,
/// and text that is no such object reads as `(0, 0)` too.
pub fn adapter_statistics_counters(output: Option<&str>) -> (r: (u64, u64))
    ensures
        r == match output {
            Some(t) => (
                or_zero(json_u64_member(t@, "ReceivedBytes"@)),
                or_zero(json_u64_member(t@, "SentBytes"@)),
            ),
            None => (0, 0),
        },
{
    match output {
        Some(text) => adapter_reading(
            u64_member(text, "ReceivedBytes"),
            u64_member(text, "SentBytes"),
        ),
        None => (0, 0),
    }
}

/// Putting `row` on a new line after `s` adds `row` as one more line.
pub proof fn lemma_lines_of_appended_line(s: Seq<char>, row: Seq<char>)
    requires
        forall|i: int| 0 <= i < row.len() ==> row[i] != '\n',
    ensures
        lines(s + seq!['\n'] + row) == lines(s).push(row),
    decreases row.len(),
{
    let x = s + seq!['\n'] + row;
    if row.len() == 0 {
        assert(x.drop_last() =~= s);
        assert(x.last() == '\n');
        assert(row =~= Seq::<char>::empty());
    } else {
        let shorter = row.drop_last();
        lemma_lines_of_appended_line(s, shorter);
        assert(x.drop_last() =~= s + seq!['\n'] + shorter);
        assert(x.last() == row.last());
        assert(row[row.len() - 1] != '\n');
        assert(shorter.push(row.last()) =~= row);
        let before = lines(s).push(shorter);
        assert(before.update(before.len() - 1, before.last().push(row.last())) =~= lines(s).push(
            row,
        ));
    }
}

/// A row added at the end of an interface table adds its fields 1 and 9 to
/// the received and transmitted totals when it is counted, and nothing when it
/// is the loopback interface's or has fewer than ten fields.
pub proof fn lemma_table_row_contribution(content: Seq<char>, row: Seq<char>)
    requires
        lines(content).len() >= 2,
        forall|i: int| 0 <= i < row.len() ==> row[i] != '\n',
    ensures
        ({
            let longer = content + seq!['\n'] + row;
            &&& counted_row(row) ==> interface_table_reading(longer) == (
                capped(column_sum(table_rows(content), 1) + field_value(fields(row)[1]) as nat),
                capped(column_sum(table_rows(content), 9) + field_value(fields(row)[9]) as nat),
            )
            &&& !counted_row(row) ==> interface_table_reading(longer)
                == interface_table_reading(content)
            &&& is_loopback_name(fields(row)[0]) ==> interface_table_reading(longer)
                == interface_table_reading(content)
            &&& fields(row).len() < 10 ==> interface_table_reading(longer)
                == interface_table_reading(content)
        }),
{
    let longer = content + seq!['\n'] + row;
    lemma_lines_of_appended_line(content, row);
    assert(table_rows(longer) =~= table_rows(content).push(row));
    assert(table_rows(longer).drop_last() == table_rows(content));
}

} // verus!
