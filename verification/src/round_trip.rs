//! Rendering a variable dump and reading it again gives the same dump.
use crate::agiparse::{
    after_first_line, custom_index, custom_lines, custom_name, dump_line, dump_line_text,
    dump_lines, dump_of, dump_of_draft, dump_text, empty_draft, field_from, field_lines,
    field_of_name, field_text, field_value, first_line, line_name, line_value, missing_from,
    request_text, well_kinded, wire_name, DraftView, DumpView, FieldView, ParseErrorView,
    FIELD_COUNT,
};
use crate::text::{
    all_digits, decimal_digits, first_index_of, first_occurrence, has_prefix, is_digit,
    is_first_index_of, is_first_occurrence, is_whitespace, lemma_decimal_round_trip,
    lemma_first_index_of, lemma_first_occurrence, lemma_trimmed_end_is_prefix, occurs_at,
    trimmed_end, unsigned_value,
};
use vstd::prelude::*;

verus! {

/// A character that a field name is made of: a small letter, a digit or `_`.
pub open spec fn is_name_char(c: char) -> bool {
    let u = c as u32;
    (0x61 <= u <= 0x7a) || (0x30 <= u <= 0x39) || u == 0x5f
}

/// Whether `s` is made of name characters only.
pub open spec fn is_name(s: Seq<char>) -> bool
    decreases s.len(),
{
    s.len() == 0 || (is_name_char(s.last()) && is_name(s.drop_last()))
}

proof fn lemma_is_name(s: Seq<char>)
    requires
        is_name(s),
    ensures
        forall|i: int| 0 <= i < s.len() ==> is_name_char(#[trigger] s[i]),
    decreases s.len(),
{
    if s.len() > 0 {
        lemma_is_name(s.drop_last());
        assert forall|i: int| 0 <= i < s.len() implies is_name_char(#[trigger] s[i]) by {
            if i < s.len() - 1 {
                assert(s[i] == s.drop_last()[i]);
            }
        }
    }
}

/// What tells a name from the others: its length, its fifth and its last character.
pub open spec fn mark(s: Seq<char>) -> (nat, char, char) {
    (s.len(), s[4], s[s.len() - 1])
}

/// The mark of the name of the fixed field number `k`.
pub open spec fn mark_of(k: int) -> (nat, char, char) {
    if k == 0 {
        (18, 'n', 't')
    } else if k == 1 {
        (11, 'r', 't')
    } else if k == 2 {
        (11, 'c', 'l')
    } else if k == 3 {
        (12, 'l', 'e')
    } else if k == 4 {
        (8, 't', 'e')
    } else if k == 5 {
        (12, 'u', 'd')
    } else if k == 6 {
        (11, 'v', 'n')
    } else if k == 7 {
        (12, 'c', 'd')
    } else if k == 8 {
        (16, 'c', 'e')
    } else if k == 9 {
        (15, 'c', 's')
    } else if k == 10 {
        (15, 'c', '2')
    } else if k == 11 {
        (14, 'c', 'n')
    } else if k == 12 {
        (14, 'c', 's')
    } else if k == 13 {
        (8, 'd', 'd')
    } else if k == 14 {
        (9, 'r', 's')
    } else if k == 15 {
        (11, 'c', 't')
    } else if k == 16 {
        (13, 'e', 'n')
    } else if k == 17 {
        (12, 'p', 'y')
    } else if k == 18 {
        (12, 'e', 'd')
    } else if k == 19 {
        (15, 'a', 'e')
    } else {
        (12, 't', 'd')
    }
}

proof fn lemma_wire_names(k: int)
    requires
        0 <= k < FIELD_COUNT,
    ensures
        is_name(wire_name(k)),
        wire_name(k).len() >= 8,
        wire_name(k)[4] != 'a' || wire_name(k)[5] != 'r',
        mark(wire_name(k)) == mark_of(k),
{
    reveal_with_fuel(is_name, 20);
    if k == 0 {
        reveal_strlit("agi_network_script");
    } else if k == 1 {
        reveal_strlit("agi_request");
    } else if k == 2 {
        reveal_strlit("agi_channel");
    } else if k == 3 {
        reveal_strlit("agi_language");
    } else if k == 4 {
        reveal_strlit("agi_type");
    } else if k == 5 {
        reveal_strlit("agi_uniqueid");
    } else if k == 6 {
        reveal_strlit("agi_version");
    } else if k == 7 {
        reveal_strlit("agi_callerid");
    } else if k == 8 {
        reveal_strlit("agi_calleridname");
    } else if k == 9 {
        reveal_strlit("agi_callingpres");
    } else if k == 10 {
        reveal_strlit("agi_callingani2");
    } else if k == 11 {
        reveal_strlit("agi_callington");
    } else if k == 12 {
        reveal_strlit("agi_callingtns");
    } else if k == 13 {
        reveal_strlit("agi_dnid");
    } else if k == 14 {
        reveal_strlit("agi_rdnis");
    } else if k == 15 {
        reveal_strlit("agi_context");
    } else if k == 16 {
        reveal_strlit("agi_extension");
    } else if k == 17 {
        reveal_strlit("agi_priority");
    } else if k == 18 {
        reveal_strlit("agi_enhanced");
    } else if k == 19 {
        reveal_strlit("agi_accountcode");
    } else {
        reveal_strlit("agi_threadid");
    }
}

/// The fixed fields have names of their own: each name is that of one field.
proof fn lemma_wire_names_differ(j: int, k: int)
    requires
        0 <= j < FIELD_COUNT,
        0 <= k < FIELD_COUNT,
        j != k,
    ensures
        wire_name(j) != wire_name(k),
{
    lemma_wire_names(j);
    lemma_wire_names(k);
    assert(mark_of(j) != mark_of(k));
}

/// The name of a fixed field is found as the name of that field.
proof fn lemma_field_of_wire_name(k: int)
    requires
        0 <= k < FIELD_COUNT,
    ensures
        field_of_name(wire_name(k)) == Some(k),
{
    lemma_field_from(wire_name(k), k, 0);
}

proof fn lemma_field_from(name: Seq<char>, k: int, from: int)
    requires
        0 <= from <= k < FIELD_COUNT,
        name == wire_name(k),
    ensures
        field_from(name, from) == Some(k),
    decreases k - from,
{
    if from < k {
        lemma_wire_names_differ(from, k);
        lemma_field_from(name, k, from + 1);
    }
}

// ---------------------------------------------------------------------------
// Values that can stand in a line
// ---------------------------------------------------------------------------
/// Whether a line can hold `v` as its value and give it back when read: it
/// holds no line end and no `": "`, and does not end in whitespace.
pub open spec fn is_clean(v: Seq<char>) -> bool {
    &&& forall|i: int| 0 <= i < v.len() ==> v[i] != '\n'
    &&& forall|i: int| !occurs_at(v, ": "@, i)
    &&& trimmed_end(v) == v
}

/// A text that is its own trimmed form does not end in whitespace.
proof fn lemma_trimmed_last(v: Seq<char>)
    requires
        trimmed_end(v) == v,
        v.len() > 0,
    ensures
        !is_whitespace(v.last()),
{
    lemma_trimmed_end_is_prefix(v);
}

/// A line `name: value` that is followed by a line end is read as that
/// name and that value, and what follows the line end is what is left.
proof fn lemma_line_read(name: Seq<char>, value: Seq<char>, rest: Seq<char>)
    requires
        name.len() > 0,
        forall|i: int| 0 <= i < name.len() ==> name[i] != '\n' && name[i] != ':',
        is_clean(value),
    ensures
        ({
            let line = name + ": "@ + value;
            let text = dump_line_text(name, value) + rest;
            &&& line.len() > 0
            &&& first_line(text) == line
            &&& after_first_line(text) == rest
            &&& line_name(line) == name
            &&& line_value(line) == Some(value)
        }),
{
    reveal_strlit(": ");
    let sep = ": "@;
    let line = name + sep + value;
    let text = dump_line_text(name, value) + rest;
    let n = name.len() as int;
    let len = line.len() as int;
    assert(text =~= line.push('\n') + rest);
    // The first line end is the one after the line.
    lemma_first_index_of(text, '\n');
    assert(is_first_index_of(text, '\n', len)) by {
        assert forall|j: int| 0 <= j < len implies text[j] != '\n' by {
            if j < n {
                assert(text[j] == name[j]);
            } else if j < n + 2 {
                assert(text[j] == sep[j - n]);
            } else {
                assert(text[j] == value[j - n - 2]);
            }
        }
        assert(text[len] == '\n');
    }
    assert(first_index_of(text, '\n') == len);
    assert(text.take(len) =~= line);
    assert(text.skip(len + 1) =~= rest);
    if value.len() > 0 {
        lemma_trimmed_last(value);
        assert(line.last() == value.last());
    } else {
        assert(line.last() == ' ');
    }
    // The first separator is the one after the name.
    lemma_first_occurrence(line, sep);
    assert(is_first_occurrence(line, sep, n)) by {
        assert(line.subrange(n, n + 2) =~= sep);
        assert forall|j: int| 0 <= j < n implies !occurs_at(line, sep, j) by {
            if occurs_at(line, sep, j) {
                assert(line.subrange(j, j + 2)[0] == line[j]);
                assert(line[j] == name[j]);
            }
        }
    }
    assert(first_occurrence(line, sep) == n);
    assert(line.take(n) =~= name);
    assert(line.skip(n + 2) =~= value);
    lemma_first_occurrence(value, sep);
    assert(is_first_occurrence(value, sep, value.len() as int));
    assert(value.take(value.len() as int) =~= value);
}

/// The value that is read from a line without a line end is clean.
proof fn lemma_line_value_clean(line: Seq<char>)
    requires
        forall|i: int| 0 <= i < line.len() ==> line[i] != '\n',
        line_value(line) is Some,
    ensures
        is_clean(line_value(line)->0),
{
    reveal_strlit(": ");
    let sep = ": "@;
    let p = first_occurrence(line, sep);
    lemma_first_occurrence(line, sep);
    let after = line.skip(p + 2);
    lemma_first_occurrence(after, sep);
    let q = first_occurrence(after, sep);
    let raw = after.take(q);
    let value = trimmed_end(raw);
    lemma_trimmed_end_is_prefix(raw);
    let m = value.len() as int;
    assert(value == raw.take(m));
    assert forall|i: int| 0 <= i < value.len() implies value[i] != '\n' by {
        assert(value[i] == line[p + 2 + i]);
    }
    assert forall|i: int| !occurs_at(value, sep, i) by {
        if occurs_at(value, sep, i) {
            assert(after.subrange(i, i + 2) =~= value.subrange(i, i + 2));
            assert(occurs_at(after, sep, i));
        }
    }
}

/// The first line of a text holds no line end.
proof fn lemma_first_line_plain(text: Seq<char>)
    ensures
        forall|i: int| 0 <= i < first_line(text).len() ==> first_line(text)[i] != '\n',
{
    lemma_first_index_of(text, '\n');
}

// ---------------------------------------------------------------------------
// Fields that are read back as they are
// ---------------------------------------------------------------------------
/// The text that writes the value `v` of a fixed field.
pub open spec fn value_text(v: FieldView) -> Seq<char> {
    match v {
        FieldView::Text(s) => s,
        FieldView::Request(r) => request_text(r),
        FieldView::Priority(n) => decimal_digits(n as nat),
        FieldView::Enhanced(b) => if b {
            "1.0"@
        } else {
            "0.0"@
        },
        FieldView::ThreadId(n) => decimal_digits(n as nat),
    }
}

/// The value of the fixed field number `k` of `d`.
pub open spec fn field_of(d: DumpView, k: int) -> FieldView {
    if k == 0 {
        FieldView::Text(d.network_script)
    } else if k == 1 {
        FieldView::Request(d.request)
    } else if k == 2 {
        FieldView::Text(d.channel)
    } else if k == 3 {
        FieldView::Text(d.language)
    } else if k == 4 {
        FieldView::Text(d.channel_type)
    } else if k == 5 {
        FieldView::Text(d.uniqueid)
    } else if k == 6 {
        FieldView::Text(d.version)
    } else if k == 7 {
        FieldView::Text(d.callerid)
    } else if k == 8 {
        FieldView::Text(d.calleridname)
    } else if k == 9 {
        FieldView::Text(d.callingpres)
    } else if k == 10 {
        FieldView::Text(d.callingani2)
    } else if k == 11 {
        FieldView::Text(d.callington)
    } else if k == 12 {
        FieldView::Text(d.callingtns)
    } else if k == 13 {
        FieldView::Text(d.dnid)
    } else if k == 14 {
        FieldView::Text(d.rdnis)
    } else if k == 15 {
        FieldView::Text(d.context)
    } else if k == 16 {
        FieldView::Text(d.extension)
    } else if k == 17 {
        FieldView::Priority(d.priority)
    } else if k == 18 {
        FieldView::Enhanced(d.enhanced)
    } else if k == 19 {
        FieldView::Text(d.accountcode)
    } else {
        FieldView::ThreadId(d.threadid)
    }
}

/// Whether the value `v` of the fixed field number `k` is read back from
/// the text that writes it.
pub open spec fn reads_back(k: int, v: FieldView) -> bool {
    &&& well_kinded(k, v)
    &&& is_clean(value_text(v))
    &&& field_value(k, value_text(v)) == Ok::<FieldView, ParseErrorView>(v)
}

/// Whether every field and every custom argument of `d` is read back from
/// the text that writes it.
pub open spec fn is_faithful(d: DumpView) -> bool {
    &&& forall|k: int| 0 <= k < FIELD_COUNT ==> reads_back(k, #[trigger] field_of(d, k))
    &&& forall|n: u8| d.custom_args.contains_key(n) ==> is_clean(#[trigger] d.custom_args[n])
}

/// The same for what was read of a dump so far.
pub open spec fn draft_reads_back(d: DraftView) -> bool {
    &&& d.fields.len() == FIELD_COUNT
    &&& forall|k: int|
        0 <= k < FIELD_COUNT && d.fields[k] is Some ==> reads_back(k, #[trigger] d.fields[k]->0)
    &&& forall|n: u8| d.custom_args.contains_key(n) ==> is_clean(#[trigger] d.custom_args[n])
}

/// Decimal digits are clean.
proof fn lemma_digits_clean(s: Seq<char>)
    requires
        all_digits(s),
    ensures
        is_clean(s),
{
    reveal_strlit(": ");
    assert forall|i: int| 0 <= i < s.len() implies s[i] != '\n' by {
        assert(is_digit(s[i]));
    }
    assert forall|i: int| !occurs_at(s, ": "@, i) by {
        if occurs_at(s, ": "@, i) {
            assert(s.subrange(i, i + 2)[0] == s[i]);
            assert(is_digit(s[i]));
        }
    }
    if s.len() > 0 {
        assert(is_digit(s.last()));
    }
}

/// A number that is written in decimal is read back.
proof fn lemma_number_reads_back(n: nat, max: nat)
    requires
        n <= max,
    ensures
        is_clean(decimal_digits(n)),
        unsigned_value(decimal_digits(n), max) == Some(n),
{
    lemma_decimal_round_trip(n);
    lemma_digits_clean(decimal_digits(n));
}

/// What a clean text means as a field is read back from the text that writes it.
proof fn lemma_field_reads_back(k: int, value: Seq<char>)
    requires
        0 <= k < FIELD_COUNT,
        is_clean(value),
        field_value(k, value) is Ok,
    ensures
        reads_back(k, field_value(k, value)->Ok_0),
{
    let v = field_value(k, value)->Ok_0;
    if k == 17 {
        lemma_number_reads_back(unsigned_value(value, 0xffff)->0, 0xffff);
    } else if k == 18 {
        reveal_strlit(": ");
        reveal_strlit("0.0");
        reveal_strlit("1.0");
        let t = value_text(v);
        assert(t.len() == 3);
        assert("1.0"@[0] != "0.0"@[0]);
        assert forall|i: int| !occurs_at(t, ": "@, i) by {
            if occurs_at(t, ": "@, i) {
                assert(t.subrange(i, i + 2)[0] == t[i]);
            }
        }
        assert(t.last() == '0');
    } else if k == 20 {
        lemma_number_reads_back(
            unsigned_value(value, 0xffff_ffff_ffff_ffff)->0,
            0xffff_ffff_ffff_ffff,
        );
    }
}

/// Reading one more line keeps what was read so far readable.
proof fn lemma_line_keeps(d: DraftView, line: Seq<char>)
    requires
        draft_reads_back(d),
        forall|i: int| 0 <= i < line.len() ==> line[i] != '\n',
        dump_line(d, line) is Ok,
    ensures
        draft_reads_back(dump_line(d, line)->Ok_0),
{
    lemma_line_value_clean(line);
    let value = line_value(line)->0;
    let next = dump_line(d, line)->Ok_0;
    match field_of_name(line_name(line)) {
        Some(k) => {
            lemma_field_from_bounds(line_name(line), 0);
            lemma_field_reads_back(k, value);
            assert forall|j: int| 0 <= j < FIELD_COUNT && next.fields[j] is Some implies reads_back(
                j,
                #[trigger] next.fields[j]->0,
            ) by {
                if j != k {
                    assert(next.fields[j] == d.fields[j]);
                }
            }
        },
        None => {
            let n = custom_index(line_name(line))->0 as u8;
            assert forall|m: u8| next.custom_args.contains_key(m) implies is_clean(
                #[trigger] next.custom_args[m],
            ) by {
                if m != n {
                    assert(d.custom_args.contains_key(m));
                }
            }
        },
    }
}

/// The field that a name is found as is one of the fixed fields.
proof fn lemma_field_from_bounds(name: Seq<char>, from: int)
    requires
        0 <= from,
    ensures
        field_from(name, from) matches Some(k) ==> from <= k < FIELD_COUNT && wire_name(k) == name,
    decreases FIELD_COUNT - from,
{
    if from < FIELD_COUNT && wire_name(from) != name {
        lemma_field_from_bounds(name, from + 1);
    }
}

/// Reading lines keeps what was read so far readable.
proof fn lemma_lines_keep(text: Seq<char>, d: DraftView)
    requires
        draft_reads_back(d),
        dump_lines(text, d) is Ok,
    ensures
        draft_reads_back(dump_lines(text, d)->Ok_0),
    decreases text.len(),
{
    if text.len() == 0 || first_line(text).len() == 0 {
    } else {
        lemma_first_line_plain(text);
        lemma_line_keeps(d, first_line(text));
        lemma_lines_keep(after_first_line(text), dump_line(d, first_line(text))->Ok_0);
    }
}

/// Where no field is missing from `k` on, each field from `k` on was read.
proof fn lemma_none_missing(fields: Seq<Option<FieldView>>, k: int)
    requires
        0 <= k,
        missing_from(fields, k) >= FIELD_COUNT,
    ensures
        forall|j: int| k <= j < FIELD_COUNT ==> fields[j] is Some,
    decreases FIELD_COUNT - k,
{
    if k < FIELD_COUNT {
        lemma_none_missing(fields, k + 1);
    }
}

/// Where each field from `k` on was read, none is missing from `k` on.
proof fn lemma_all_read(fields: Seq<Option<FieldView>>, k: int)
    requires
        0 <= k,
        forall|j: int| k <= j < FIELD_COUNT ==> fields[j] is Some,
    ensures
        missing_from(fields, k) >= FIELD_COUNT,
    decreases FIELD_COUNT - k,
{
    if k < FIELD_COUNT {
        lemma_all_read(fields, k + 1);
    }
}

/// Every field and every custom argument of a dump that was read from a
/// text is read back from the text that writes it.
pub proof fn lemma_parsed_is_faithful(text: Seq<char>)
    requires
        dump_of(text) is Ok,
    ensures
        is_faithful(dump_of(text)->Ok_0),
{
    let first = empty_draft();
    assert(draft_reads_back(first));
    lemma_lines_keep(text, first);
    let draft = dump_lines(text, first)->Ok_0;
    lemma_none_missing(draft.fields, 0);
    let d = dump_of_draft(draft);
    assert forall|k: int| 0 <= k < FIELD_COUNT implies reads_back(k, #[trigger] field_of(d, k)) by {
        assert(draft.fields[k] is Some);
        assert(reads_back(k, draft.fields[k]->0));
        assert(field_of(d, k) == draft.fields[k]->0);
    }
}

// ---------------------------------------------------------------------------
// Reading what was rendered
// ---------------------------------------------------------------------------
/// The draft `draft` once the fixed fields of `d` from number `k` on were read.
pub open spec fn with_fields(draft: DraftView, d: DumpView, k: int) -> DraftView {
    DraftView {
        fields: Seq::new(
            FIELD_COUNT as nat,
            |j: int|
                if j >= k {
                    Some(field_of(d, j))
                } else {
                    draft.fields[j]
                },
        ),
        custom_args: draft.custom_args,
    }
}

/// Reading the lines of the fixed fields of `d` from number `k` on reads these fields.
proof fn lemma_fields_read(d: DumpView, k: int, draft: DraftView, rest: Seq<char>)
    requires
        is_faithful(d),
        0 <= k <= FIELD_COUNT,
        draft.fields.len() == FIELD_COUNT,
    ensures
        dump_lines(field_lines(d, k) + rest, draft) == dump_lines(rest, with_fields(draft, d, k)),
    decreases FIELD_COUNT - k,
{
    if k == FIELD_COUNT {
        assert(field_lines(d, k) + rest =~= rest);
        assert(with_fields(draft, d, k).fields =~= draft.fields);
    } else {
        let name = wire_name(k);
        let value = field_text(d, k);
        let tail = field_lines(d, k + 1) + rest;
        let text = field_lines(d, k) + rest;
        lemma_wire_names(k);
        lemma_is_name(name);
        assert(reads_back(k, field_of(d, k)));
        assert(value == value_text(field_of(d, k)));
        assert(text =~= dump_line_text(name, value) + tail);
        lemma_line_read(name, value, tail);
        lemma_field_of_wire_name(k);
        let line = name + ": "@ + value;
        let next = DraftView {
            fields: draft.fields.update(k, Some(field_of(d, k))),
            custom_args: draft.custom_args,
        };
        assert(dump_line(draft, line) == Ok::<DraftView, ParseErrorView>(next));
        assert(text.len() > 0);
        lemma_fields_read(d, k + 1, next, rest);
        assert(with_fields(next, d, k + 1).fields =~= with_fields(draft, d, k).fields);
    }
}

/// The custom arguments of `args` with a number below `n`.
pub open spec fn args_below(args: Map<u8, Seq<char>>, n: int) -> Map<u8, Seq<char>> {
    Map::new(|m: u8| args.contains_key(m) && m < n, |m: u8| args[m])
}

/// No fixed field has a name that begins like that of a custom argument.
proof fn lemma_no_field(name: Seq<char>, from: int)
    requires
        0 <= from,
        name.len() >= 8,
        name[4] == 'a',
        name[5] == 'r',
    ensures
        field_from(name, from) is None,
    decreases FIELD_COUNT - from,
{
    if from < FIELD_COUNT {
        lemma_wire_names(from);
        lemma_no_field(name, from + 1);
    }
}

/// The name of a custom argument is read as the name of that argument.
proof fn lemma_custom_name(n: nat)
    requires
        n <= 255,
    ensures
        custom_name(n).len() > 0,
        forall|i: int|
            0 <= i < custom_name(n).len() ==> custom_name(n)[i] != '\n' && custom_name(n)[i]
                != ':',
        field_of_name(custom_name(n)) is None,
        has_prefix(custom_name(n), "agi_arg_"@),
        custom_index(custom_name(n)) == Some(n),
{
    reveal_strlit("agi_arg_");
    reveal_with_fuel(is_name, 10);
    let lit = "agi_arg_"@;
    let digits = decimal_digits(n);
    let name = custom_name(n);
    lemma_number_reads_back(n, 255);
    lemma_decimal_round_trip(n);
    assert(is_name(lit));
    lemma_is_name(lit);
    assert forall|i: int| 0 <= i < name.len() implies name[i] != '\n' && name[i] != ':' by {
        if i < 8 {
            assert(name[i] == lit[i]);
            assert(is_name_char(lit[i]));
        } else {
            assert(name[i] == digits[i - 8]);
            assert(is_digit(digits[i - 8]));
        }
    }
    assert(name[4] == lit[4]);
    assert(name[5] == lit[5]);
    lemma_no_field(name, 0);
    assert(name.subrange(0, 8) =~= lit);
    assert(name.skip(8) =~= digits);
}

/// Reading the lines of the custom arguments of `args` from number `n` on
/// reads these arguments.
proof fn lemma_custom_read(args: Map<u8, Seq<char>>, n: int, draft: DraftView, rest: Seq<char>)
    requires
        forall|m: u8| args.contains_key(m) ==> is_clean(#[trigger] args[m]),
        0 <= n <= 256,
        draft.custom_args == args_below(args, n),
    ensures
        dump_lines(custom_lines(args, n) + rest, draft) == dump_lines(
            rest,
            DraftView { fields: draft.fields, custom_args: args },
        ),
    decreases 256 - n,
{
    if n == 256 {
        assert(custom_lines(args, n) + rest =~= rest);
        assert(args_below(args, n) =~= args);
    } else if args.contains_key(n as u8) {
        let name = custom_name(n as nat);
        let value = args[n as u8];
        let tail = custom_lines(args, n + 1) + rest;
        let text = custom_lines(args, n) + rest;
        lemma_custom_name(n as nat);
        assert(text =~= dump_line_text(name, value) + tail);
        lemma_line_read(name, value, tail);
        let line = name + ": "@ + value;
        let next = DraftView {
            fields: draft.fields,
            custom_args: draft.custom_args.insert(n as u8, value),
        };
        assert(!draft.custom_args.contains_key(n as u8));
        assert(dump_line(draft, line) == Ok::<DraftView, ParseErrorView>(next));
        assert(text.len() > 0);
        assert(next.custom_args =~= args_below(args, n + 1));
        lemma_custom_read(args, n + 1, next, rest);
    } else {
        assert(args_below(args, n) =~= args_below(args, n + 1));
        lemma_custom_read(args, n + 1, draft, rest);
    }
}

/// A dump whose fields and custom arguments are read back each by itself
/// is read back as a whole from the text that writes it.
pub proof fn lemma_faithful_round_trip(d: DumpView)
    requires
        is_faithful(d),
    ensures
        dump_of(dump_text(d)) == Ok::<DumpView, ParseErrorView>(d),
{
    let nothing = Seq::<char>::empty();
    let args = d.custom_args;
    let first = empty_draft();
    lemma_fields_read(d, 0, first, custom_lines(args, 0));
    let fields_read = with_fields(first, d, 0);
    assert(fields_read.custom_args =~= args_below(args, 0));
    lemma_custom_read(args, 0, fields_read, nothing);
    assert(custom_lines(args, 0) + nothing =~= custom_lines(args, 0));
    let all = DraftView { fields: fields_read.fields, custom_args: args };
    assert(dump_lines(dump_text(d), first) == Ok::<DraftView, ParseErrorView>(all));
    lemma_all_read(all.fields, 0);
    assert(forall|k: int| 0 <= k < FIELD_COUNT ==> all.fields[k] == Some(field_of(d, k)));
    assert(all.fields[0] == Some(field_of(d, 0)));
    assert(all.fields[1] == Some(field_of(d, 1)));
    assert(all.fields[2] == Some(field_of(d, 2)));
    assert(all.fields[3] == Some(field_of(d, 3)));
    assert(all.fields[4] == Some(field_of(d, 4)));
    assert(all.fields[5] == Some(field_of(d, 5)));
    assert(all.fields[6] == Some(field_of(d, 6)));
    assert(all.fields[7] == Some(field_of(d, 7)));
    assert(all.fields[8] == Some(field_of(d, 8)));
    assert(all.fields[9] == Some(field_of(d, 9)));
    assert(all.fields[10] == Some(field_of(d, 10)));
    assert(all.fields[11] == Some(field_of(d, 11)));
    assert(all.fields[12] == Some(field_of(d, 12)));
    assert(all.fields[13] == Some(field_of(d, 13)));
    assert(all.fields[14] == Some(field_of(d, 14)));
    assert(all.fields[15] == Some(field_of(d, 15)));
    assert(all.fields[16] == Some(field_of(d, 16)));
    assert(all.fields[17] == Some(field_of(d, 17)));
    assert(all.fields[18] == Some(field_of(d, 18)));
    assert(all.fields[19] == Some(field_of(d, 19)));
    assert(all.fields[20] == Some(field_of(d, 20)));
    assert(dump_of_draft(all) == d);
}

/// Idempotent framing: a variable dump that was read from any text, when
/// rendered and read again, gives the same variable dump.
pub proof fn lemma_render_parse_round_trip(text: Seq<char>)
    requires
        dump_of(text) is Ok,
    ensures
        dump_of(dump_text(dump_of(text)->Ok_0)) == dump_of(text),
{
    lemma_parsed_is_faithful(text);
    lemma_faithful_round_trip(dump_of(text)->Ok_0);
}

} // verus!
