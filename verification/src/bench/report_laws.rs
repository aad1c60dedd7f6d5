//! What the reports of the system and of commands are read as.

use crate::bench::aggregate_retention::AggregateMismatch;
use crate::bench::current_projection_tail::TailError;
use crate::bench::pending_isolation::IsolationError;
use crate::bench::process_memory::{
    above, adjoining_peak, breakdown_of, capped, is_hex_digit, kib_bytes, mapping_path,
    required_status, scaled, smaps_header, smaps_value, status_kib, totals_of, word_number,
    MemoryBreakdown, SmapsTotals, StatusError,
};
use crate::bench::provenance::{
    child_failure_text, failure_text, is_commit_id, ChildKind, CommandOutcome, FailureRule,
};
use crate::bench::scan::{is_space, line_with, lines, trimmed, word};
use crate::bench::scan_laws::{
    blank, ends_word, is_word, law_first_fitting_line_is_found,
    law_numerals_read_as_their_numbers, law_words_follow_one_another,
};
use crate::text::{
    decimal, law_decimal_is_positional, shows, shows_before, signed_decimal, stands_at,
};
use vstd::prelude::*;

verus! {

proof fn lemma_numeral_is_word(n: nat)
    ensures
        is_word(decimal(n)),
{
    law_decimal_is_positional(n);
    let numeral = decimal(n);
    assert forall|i: int| 0 <= i < numeral.len() implies !is_space(#[trigger] numeral[i]) by {
        let k = numeral.len() - 1 - i;
        assert(numeral[numeral.len() - 1 - k] as int == '0' as int + n as int
            / vstd::arithmetic::power::pow(10, k as nat) % 10);
    }
}

/// A line of a report: the name of a field, a blank, a number, and what may
/// follow it.
pub open spec fn is_field_line(
    line: Seq<char>,
    field: Seq<char>,
    gap: Seq<char>,
    n: nat,
    rest: Seq<char>,
) -> bool {
    line == field + gap + decimal(n) + rest && blank(gap) && ends_word(rest)
}

/// How far a value lies above another is what has to be added to get there, and
/// nothing where it does not lie above it.
pub proof fn law_growth_leads_from_start_to_end(value: u64, baseline: u64)
    ensures
        value >= baseline ==> baseline + above(value, baseline) == value,
        value < baseline ==> above(value, baseline) == 0,
{
}

/// Sums are exact up to the largest number, and stop there. A KiB is 1024 bytes.
pub proof fn law_sums_stop_at_the_largest_number(value: int, kib: u64)
    requires
        value >= 0,
    ensures
        value <= u64::MAX ==> capped(value) == value,
        value > u64::MAX ==> capped(value) == u64::MAX,
        1024 * kib <= u64::MAX ==> kib_bytes(Some(kib)) == Some((1024 * kib) as u64),
        1024 * kib > u64::MAX ==> kib_bytes(Some(kib)) is None,
        kib_bytes(None) is None,
{
}

/// A status field is read off the first line that has it: the number behind its
/// name. In bytes it is 1024 times that, where that fits, and otherwise the
/// largest number, for those programs that need a value.
pub proof fn law_status_field_is_read(
    status: Seq<char>,
    i: int,
    field: Seq<char>,
    gap: Seq<char>,
    n: u64,
    rest: Seq<char>,
)
    requires
        is_word(field),
        gap.len() > 0,
        0 <= i < lines(status).len(),
        is_field_line(lines(status)[i], field, gap, n as nat, rest),
        forall|j: int| 0 <= j < i ==> !field.is_prefix_of(#[trigger] lines(status)[j]),
    ensures
        status_kib(status, field) == Some(n),
        required_status(status, field) == Ok::<u64, StatusError>(capped(1024 * n)),
{
    let line = lines(status)[i];
    assert(line.take(field.len() as int) =~= field);
    lemma_found(lines(status), field, i);
    let numeral = decimal(n as nat);
    lemma_numeral_is_word(n as nat);
    let tail = gap + numeral + rest;
    assert(line =~= Seq::<char>::empty() + field + tail);
    assert(tail[0] == gap[0]);
    law_words_follow_one_another(Seq::empty(), field, tail, 0);
    law_words_follow_one_another(gap, numeral, rest, 0);
    assert(word(line, 1) == Some(numeral));
    law_numerals_read_as_their_numbers(n as nat);
}

proof fn lemma_found(list: Seq<Seq<char>>, field: Seq<char>, i: int)
    requires
        0 <= i < list.len(),
        field.is_prefix_of(list[i]),
        forall|j: int| 0 <= j < i ==> !field.is_prefix_of(#[trigger] list[j]),
    ensures
        line_with(list, field) == Some(list[i]),
{
    law_first_fitting_line_is_found(list, field);
}

/// The peak of a process is read off the number behind `VmHWM:`, whether or not
/// a blank is between them.
pub proof fn law_peak_is_read(
    status: Seq<char>,
    i: int,
    gap: Seq<char>,
    n: u64,
    rest: Seq<char>,
)
    requires
        0 <= i < lines(status).len(),
        is_field_line(lines(status)[i], "VmHWM:"@, gap, n as nat, rest),
        forall|j: int| 0 <= j < i ==> !"VmHWM:"@.is_prefix_of(#[trigger] lines(status)[j]),
    ensures
        adjoining_peak(status) == Ok::<u64, StatusError>(capped(1024 * n)),
{
    let field = "VmHWM:"@;
    let line = lines(status)[i];
    let numeral = decimal(n as nat);
    assert(line.take(field.len() as int) =~= field);
    lemma_found(lines(status), field, i);
    assert(line.skip(field.len() as int) =~= gap + numeral + rest);
    lemma_numeral_is_word(n as nat);
    law_words_follow_one_another(gap, numeral, rest, 0);
    law_numerals_read_as_their_numbers(n as nat);
}

/// A report without a field says so, and one whose field has no value says that.
pub proof fn law_absent_field_is_reported(status: Seq<char>, field: Seq<char>)
    requires
        forall|j: int|
            0 <= j < lines(status).len() ==> !field.is_prefix_of(#[trigger] lines(status)[j]),
    ensures
        status_kib(status, field) is None,
        required_status(status, field) == Err::<u64, StatusError>(StatusError::FieldMissing),
        word_number(None) == Err::<u64, StatusError>(StatusError::ValueMissing),
        scaled(word_number(None), 1024) == Err::<u64, StatusError>(StatusError::ValueMissing),
{
    law_first_fitting_line_is_found(lines(status), field);
}

/// A field of a mapping is read off a line that starts with its name: the number
/// behind it, in KiB. A line that does not start with it has no such field.
pub proof fn law_mapping_field_is_read(
    line: Seq<char>,
    field: Seq<char>,
    gap: Seq<char>,
    n: u64,
    rest: Seq<char>,
)
    ensures
        is_field_line(line, field, gap, n as nat, rest) && 1024 * n <= u64::MAX ==> smaps_value(
            line,
            field,
        ) == Some((1024 * n) as u64),
        is_field_line(line, field, gap, n as nat, rest) && 1024 * n > u64::MAX ==> smaps_value(
            line,
            field,
        ) is None,
        !field.is_prefix_of(line) ==> smaps_value(line, field) is None,
{
    if is_field_line(line, field, gap, n as nat, rest) {
        let numeral = decimal(n as nat);
        assert(line.take(field.len() as int) =~= field);
        assert(line.skip(field.len() as int) =~= gap + numeral + rest);
        lemma_numeral_is_word(n as nat);
        law_words_follow_one_another(gap, numeral, rest, 0);
        law_numerals_read_as_their_numbers(n as nat);
    }
}

/// A line opens a mapping exactly when its first word is made of hexadecimal
/// digits of either case and at least one dash.
pub proof fn law_mapping_opens_with_an_address_range(
    gap: Seq<char>,
    first: Seq<char>,
    rest: Seq<char>,
)
    requires
        blank(gap),
        is_word(first),
        ends_word(rest),
    ensures
        smaps_header(gap + first + rest) <==> (exists|i: int|
            0 <= i < first.len() && #[trigger] first[i] == '-') && forall|i: int|
            0 <= i < first.len() ==> {
                let code = (#[trigger] first[i]) as int;
                code == 45 || 48 <= code <= 57 || 65 <= code <= 70 || 97 <= code <= 102
            },
{
    law_words_follow_one_another(gap, first, rest, 0);
    let line = gap + first + rest;
    assert(word(line, 0) == Some(first));
    if smaps_header(line) {
        let i = choose|i: int| 0 <= i < first.len() && first[i] == '-';
        assert(first[i] == '-');
        assert forall|i: int| 0 <= i < first.len() implies {
            let code = (#[trigger] first[i]) as int;
            code == 45 || 48 <= code <= 57 || 65 <= code <= 70 || 97 <= code <= 102
        } by {
            assert(crate::bench::process_memory::is_range_char(first[i]));
        }
    }
}

/// The totals of a report are those of its lines: a mapping's header says whose
/// the following lines are, a resident size counts for all mappings and for its
/// owner, an anonymous size counts as such, and no other line counts.
pub proof fn law_totals_count_line_by_line(
    list: Seq<Seq<char>>,
    line: Seq<char>,
    database: Seq<char>,
)
    ensures
        totals_of(Seq::empty(), 0, database) == (SmapsTotals {
            in_heap: false,
            in_database: false,
            total: 0,
            anonymous: 0,
            heap: 0,
            database: 0,
        }),
        ({
            let before = totals_of(list, list.len(), database);
            let after = totals_of(list.push(line), list.len() + 1, database);
            let resident = smaps_value(line, "Rss:"@);
            let anonymous = smaps_value(line, "Anonymous:"@);
            &&& smaps_header(line) ==> {
                &&& after.in_heap <==> word(line, 5) == Some("[heap]"@)
                &&& word(line, 5) is Some ==> (after.in_database <==> word(line, 5) == Some(
                    database,
                ))
                &&& (after.total, after.anonymous, after.heap, after.database) == (
                    before.total,
                    before.anonymous,
                    before.heap,
                    before.database,
                )
            }
            &&& !smaps_header(line) ==> after.in_heap == before.in_heap && after.in_database
                == before.in_database
            &&& !smaps_header(line) && resident is Some && before.total + resident->0 <= u64::MAX
                ==> {
                &&& after.total == before.total + resident->0
                &&& after.heap == before.heap + if before.in_heap {
                    resident->0 as int
                } else {
                    0
                }
                &&& after.database == before.database + if before.in_database {
                    resident->0 as int
                } else {
                    0
                }
                &&& after.anonymous == before.anonymous
            }
            &&& !smaps_header(line) && resident is None && anonymous is Some && before.anonymous
                + anonymous->0 <= u64::MAX ==> {
                &&& after.anonymous == before.anonymous + anonymous->0
                &&& (after.total, after.heap, after.database) == (
                    before.total,
                    before.heap,
                    before.database,
                )
            }
            &&& !smaps_header(line) && resident is None && anonymous is None ==> after == before
        }),
{
    lemma_totals_of_prefix(list, line, database, list.len());
    crate::bench::process_memory::law_owner_within_total(list, list.len(), database);
    reveal_strlit("");
    reveal_strlit("[heap]");
    assert(""@.len() == 0 && "[heap]"@.len() == 6);
    assert(mapping_path(line) == "[heap]"@ <==> word(line, 5) == Some("[heap]"@));
}

proof fn lemma_totals_of_prefix(
    list: Seq<Seq<char>>,
    line: Seq<char>,
    database: Seq<char>,
    n: nat,
)
    requires
        n <= list.len(),
    ensures
        totals_of(list.push(line), n, database) == totals_of(list, n, database),
    decreases n,
{
    if n > 0 {
        lemma_totals_of_prefix(list, line, database, (n - 1) as nat);
    }
}

/// A breakdown says what the totals are; what is not anonymous is backed by
/// files, so that both together are all mappings.
pub proof fn law_breakdown_adds_up(totals: SmapsTotals)
    ensures
        breakdown_of(totals).anonymous_rss_bytes == totals.anonymous,
        breakdown_of(totals).heap_mapping_rss_bytes == totals.heap,
        breakdown_of(totals).database_mapped_rss_bytes == totals.database,
        totals.total >= totals.anonymous ==> breakdown_of(totals).anonymous_rss_bytes
            + breakdown_of(totals).file_backed_rss_bytes == totals.total,
        totals.total < totals.anonymous ==> breakdown_of(totals).file_backed_rss_bytes == 0,
{
}

/// Every owner's growth leads from what it held to what it holds.
pub proof fn law_breakdown_growth_is_by_owner(now: MemoryBreakdown, baseline: MemoryBreakdown)
    ensures
        ({
            let growth = crate::bench::aggregate_retention::breakdown_growth(now, baseline);
            &&& now.anonymous_rss_bytes >= baseline.anonymous_rss_bytes
                ==> baseline.anonymous_rss_bytes + growth.anonymous_rss_bytes
                == now.anonymous_rss_bytes
            &&& now.file_backed_rss_bytes >= baseline.file_backed_rss_bytes
                ==> baseline.file_backed_rss_bytes + growth.file_backed_rss_bytes
                == now.file_backed_rss_bytes
            &&& now.heap_mapping_rss_bytes >= baseline.heap_mapping_rss_bytes
                ==> baseline.heap_mapping_rss_bytes + growth.heap_mapping_rss_bytes
                == now.heap_mapping_rss_bytes
            &&& now.database_mapped_rss_bytes >= baseline.database_mapped_rss_bytes
                ==> baseline.database_mapped_rss_bytes + growth.database_mapped_rss_bytes
                == now.database_mapped_rss_bytes
            &&& now.anonymous_rss_bytes <= baseline.anonymous_rss_bytes
                ==> growth.anonymous_rss_bytes == 0
            &&& now.file_backed_rss_bytes <= baseline.file_backed_rss_bytes
                ==> growth.file_backed_rss_bytes == 0
            &&& now.heap_mapping_rss_bytes <= baseline.heap_mapping_rss_bytes
                ==> growth.heap_mapping_rss_bytes == 0
            &&& now.database_mapped_rss_bytes <= baseline.database_mapped_rss_bytes
                ==> growth.database_mapped_rss_bytes == 0
        }),
{
}

/// A commit id is forty characters, each of them a hexadecimal digit of either
/// case, given by its code.
pub proof fn law_commit_ids_are_forty_digits(text: Seq<char>)
    ensures
        is_commit_id(text) <==> text.len() == 40 && forall|i: int|
            0 <= i < text.len() ==> {
                let code = (#[trigger] text[i]) as int;
                48 <= code <= 57 || 65 <= code <= 70 || 97 <= code <= 102
            },
{
    if is_commit_id(text) {
        assert forall|i: int| 0 <= i < text.len() implies {
            let code = (#[trigger] text[i]) as int;
            48 <= code <= 57 || 65 <= code <= 70 || 97 <= code <= 102
        } by {
            assert(is_hex_digit(text[i]));
        }
    }
}

/// A text ends with another one.
pub open spec fn ends_with(text: Seq<char>, part: Seq<char>) -> bool {
    text.len() >= part.len() && text.skip(text.len() - part.len()) == part
}

/// The report of a failed command starts with the program, and ends with what
/// the rule asks for: its status, or what it printed as its errors.
pub proof fn law_failure_names_the_program(
    rule: FailureRule,
    program: Seq<char>,
    outcome: CommandOutcome,
)
    ensures
        rule != FailureRule::Ignore ==> program.is_prefix_of(failure_text(rule, program, outcome)),
        rule == FailureRule::ReportStatus ==> ends_with(
            failure_text(rule, program, outcome),
            outcome.status@,
        ),
        rule == FailureRule::ReportErrors ==> ends_with(
            failure_text(rule, program, outcome),
            trimmed(outcome.stderr@),
        ),
        rule == FailureRule::Ignore ==> failure_text(rule, program, outcome).len() == 0,
{
    let text = failure_text(rule, program, outcome);
    if rule != FailureRule::Ignore {
        assert(text.take(program.len() as int) =~= program);
    }
    if rule == FailureRule::ReportStatus {
        assert(text.skip(text.len() - outcome.status@.len()) =~= outcome.status@);
    }
    if rule == FailureRule::ReportErrors {
        let errors = trimmed(outcome.stderr@);
        assert(text.skip(text.len() - errors.len()) =~= errors);
    }
}

/// The report of a failed child ends with what it printed as its errors, without
/// blanks at its ends where the child measures.
pub proof fn law_child_failure_shows_its_errors(kind: ChildKind, stderr: Seq<char>)
    ensures
        kind == ChildKind::Plain ==> ends_with(child_failure_text(kind, stderr), stderr),
        kind != ChildKind::Plain ==> ends_with(child_failure_text(kind, stderr), trimmed(stderr)),
{
    let text = child_failure_text(kind, stderr);
    let errors = if kind == ChildKind::Plain {
        stderr
    } else {
        trimmed(stderr)
    };
    assert(text.skip(text.len() - errors.len()) =~= errors);
}

/// A wrong aggregate is reported with the iteration that it belongs to, or with
/// the instant that was looked at.
pub proof fn law_wrong_aggregate_is_placed(mismatch: AggregateMismatch, valid_at: i64)
    ensures
        shows(mismatch.text(), decimal(mismatch.iteration as nat)),
        shows(
            (TailError::AggregateMismatch { valid_at }).text(),
            signed_decimal(valid_at as int),
        ),
{
    let text = mismatch.text();
    let numeral = decimal(mismatch.iteration as nat);
    let at: int = "aggregate correctness mismatch at iteration "@.len() as int;
    assert(text.subrange(at, at + numeral.len()) =~= numeral);
    assert(stands_at(text, at, numeral));
    let report = (TailError::AggregateMismatch { valid_at }).text();
    let instant = signed_decimal(valid_at as int);
    let front: int = "temporal aggregate mismatch at "@.len() as int;
    assert(report.subrange(front, front + instant.len()) =~= instant);
    assert(stands_at(report, front, instant));
}

/// A variant whose aggregate is wrong is reported with its label, the counts and
/// the sums: what was found, and then what was wanted.
pub proof fn law_mismatch_shows_found_and_wanted(
    label: String,
    found: (u64, i128),
    wanted: (u64, i128),
)
    ensures
        ({
            let text = (IsolationError::Mismatch { label, found, wanted }).text();
            &&& shows_before(text, label@, decimal(found.0 as nat))
            &&& shows_before(text, decimal(found.0 as nat), decimal(wanted.0 as nat))
            &&& shows_before(text, decimal(wanted.0 as nat), signed_decimal(found.1 as int))
            &&& shows_before(text, signed_decimal(found.1 as int), signed_decimal(wanted.1 as int))
        }),
{
    let text = (IsolationError::Mismatch { label, found, wanted }).text();
    let parts = (
        decimal(found.0 as nat),
        decimal(wanted.0 as nat),
        signed_decimal(found.1 as int),
        signed_decimal(wanted.1 as int),
    );
    assert(text.subrange(0, label@.len() as int) =~= label@);
    assert(stands_at(text, 0, label@));
    let first: int = (label@.len() + ": correctness mismatch: count "@.len()) as int;
    assert(text.subrange(first, first + parts.0.len()) =~= parts.0);
    assert(stands_at(text, first, parts.0));
    let second: int = first + parts.0.len() + "/"@.len();
    assert(text.subrange(second, second + parts.1.len()) =~= parts.1);
    assert(stands_at(text, second, parts.1));
    let third: int = second + parts.1.len() + ", checksum "@.len();
    assert(text.subrange(third, third + parts.2.len()) =~= parts.2);
    assert(stands_at(text, third, parts.2));
    let fourth: int = third + parts.2.len() + "/"@.len();
    assert(text.subrange(fourth, fourth + parts.3.len()) =~= parts.3);
    assert(stands_at(text, fourth, parts.3));
}

/// What a report lacks is told by its name; a value that is no number is told by
/// the reason for it.
pub proof fn law_missing_value_is_named(error: StatusError, label: Seq<char>, value: Seq<char>)
    ensures
        error is FieldMissing || error is ValueMissing ==> label.is_prefix_of(error.text(label)),
        error is FieldMissing ==> ends_with(error.missing_text(label, value), label),
        error is ValueMissing ==> ends_with(error.missing_text(label, value), value),
        error matches StatusError::Number(reason) ==> error.text(label) == reason.text()
            && error.missing_text(label, value) == reason.text(),
{
    if error is FieldMissing || error is ValueMissing {
        assert(error.text(label).take(label.len() as int) =~= label);
    }
    let text = error.missing_text(label, value);
    if error is FieldMissing {
        assert(text.skip(text.len() - label.len()) =~= label);
    }
    if error is ValueMissing {
        assert(text.skip(text.len() - value.len()) =~= value);
    }
}

} // verus!
