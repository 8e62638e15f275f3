//! What a diagnostic report says, and how it is read and cut.

#[allow(unused_imports)]
use crate::applescript::{
    click_script, close_script, diagnostic_script, pid_list_literal, quoted_pids, string_literal,
};
#[allow(unused_imports)]
use crate::collector::{all_reasons, capped_raw, captured, with_reasons};
#[allow(unused_imports)]
use crate::diagnose::{
    capped_output, closing, dialog_block, dialog_blocks, dialog_element_line, dialog_element_lines,
    dialog_windows, dialogs_section, element_count, element_line, element_lines, heading, plaintext,
    process_block, process_blocks, process_line, reason_lines, reasons_section, targets_section,
    truth_text, window_block, window_blocks, window_count, window_element_count, window_line,
    ElementView, ProcessView, ReportView, WindowView,
};
#[allow(unused_imports)]
use crate::json_output::{
    bound_elements, bound_processes, bound_windows, bounded_element, bounded_scalar, first_limits,
    json_output, next_limits, JsonLimits,
};
#[allow(unused_imports)]
use crate::protocol::{
    close_process, close_window, decoded, digits_value, empty_parse, hex_value, joined_words,
    note_reason, percent_decoded, pid_value, read_element, read_field, read_fields, read_lines,
    read_process, read_record, read_system_process, read_text, read_window, redacted_element_type,
    redacted_text, redacted_title, sanitized, truncation_text, until, with_reason, FieldsView,
    ParseView,
};
#[allow(unused_imports)]
use crate::text::{
    after_prefix, decimal, digit, digits, first_at, fitting, has_part,
    lemma_utf8_len_is_encoded_len, stands_at, trimmed,
};
#[allow(unused_imports)]
use crate::text_laws::{
    blank, law_a_part_is_found, law_as_much_is_kept_as_fits, law_the_rest_after_a_beginning,
};
use vstd::prelude::*;

verus! {

// ---------------------------------------------------------------------------
// What the plain text says
// ---------------------------------------------------------------------------

/// A part of a part is a part.
proof fn lemma_part_of_part(s: Seq<char>, t: Seq<char>, u: Seq<char>)
    requires
        has_part(s, t),
        has_part(t, u),
    ensures
        has_part(s, u),
{
    let i = choose|i: int| stands_at(s, t, i);
    let j = choose|j: int| stands_at(t, u, j);
    assert(s.subrange(i, i + t.len()) == t);
    assert(t.subrange(j, j + u.len()) == u);
    assert(s.subrange(i + j, i + j + u.len()) =~= u) by {
        assert forall|k: int| 0 <= k < u.len() implies s[i + j + k] == u[k] by {
            assert(t.subrange(j, j + u.len())[k] == t[j + k]);
            assert(s.subrange(i, i + t.len())[j + k] == s[i + (j + k)]);
        }
    }
    assert(stands_at(s, u, i + j));
}

/// What stands in one of two texts stands in both together.
proof fn lemma_part_of_sum(a: Seq<char>, b: Seq<char>, u: Seq<char>)
    ensures
        has_part(a, u) ==> has_part(a + b, u),
        has_part(b, u) ==> has_part(a + b, u),
        has_part(u, u),
{
    let e = Seq::<char>::empty();
    law_a_part_is_found(e, a, b);
    assert(e + a + b =~= a + b);
    law_a_part_is_found(a, b, e);
    assert(a + b + e =~= a + b);
    law_a_part_is_found(e, u, e);
    assert(e + u + e =~= u);
    if has_part(a, u) {
        lemma_part_of_part(a + b, a, u);
    }
    if has_part(b, u) {
        lemma_part_of_part(a + b, b, u);
    }
}

proof fn lemma_element_line_in(es: Seq<ElementView>, k: int)
    requires
        0 <= k < es.len(),
    ensures
        has_part(element_lines(es), element_line(es[k])),
        has_part(dialog_element_lines(es), dialog_element_line(es[k])),
    decreases es.len(),
{
    lemma_part_of_sum(
        element_lines(es.drop_last()),
        element_line(es.last()),
        element_line(es[k]),
    );
    lemma_part_of_sum(
        dialog_element_lines(es.drop_last()),
        dialog_element_line(es.last()),
        dialog_element_line(es[k]),
    );
    if k < es.len() - 1 {
        lemma_element_line_in(es.drop_last(), k);
        assert(es.drop_last()[k] == es[k]);
    }
}

proof fn lemma_window_in(ws: Seq<WindowView>, k: int)
    requires
        0 <= k < ws.len(),
    ensures
        has_part(window_blocks(ws), window_block(ws[k])),
        has_part(dialog_windows(ws), window_line(ws[k])),
        has_part(dialog_windows(ws), dialog_element_lines(ws[k].elements)),
    decreases ws.len(),
{
    let front = ws.drop_last();
    let last = ws[ws.len() - 1];
    lemma_part_of_sum(window_blocks(front), window_block(last), window_block(ws[k]));
    let lines = dialog_element_lines(last.elements);
    lemma_part_of_sum(dialog_windows(front), window_line(last), window_line(ws[k]));
    lemma_part_of_sum(
        dialog_windows(front),
        window_line(last),
        dialog_element_lines(ws[k].elements),
    );
    lemma_part_of_sum(dialog_windows(front) + window_line(last), lines, window_line(ws[k]));
    lemma_part_of_sum(
        dialog_windows(front) + window_line(last),
        lines,
        dialog_element_lines(ws[k].elements),
    );
    if k < ws.len() - 1 {
        lemma_window_in(front, k);
        assert(front[k] == ws[k]);
    }
}

proof fn lemma_process_in(ps: Seq<ProcessView>, k: int)
    requires
        0 <= k < ps.len(),
    ensures
        has_part(process_blocks(ps), process_block(ps[k])),
        has_part(dialog_blocks(ps), dialog_block(ps[k])),
    decreases ps.len(),
{
    lemma_part_of_sum(
        process_blocks(ps.drop_last()),
        process_block(ps.last()),
        process_block(ps[k]),
    );
    lemma_part_of_sum(
        dialog_blocks(ps.drop_last()),
        dialog_block(ps.last()),
        dialog_block(ps[k]),
    );
    if k < ps.len() - 1 {
        lemma_process_in(ps.drop_last(), k);
        assert(ps.drop_last()[k] == ps[k]);
    }
}

/// Every section of the plain text is part of it.
proof fn lemma_sections(r: ReportView)
    ensures
        has_part(plaintext(r), heading(r.timestamp)),
        has_part(plaintext(r), reasons_section(r.truncation_reasons)),
        has_part(plaintext(r), targets_section(r.target_processes)),
        has_part(plaintext(r), dialogs_section(r.system_dialogs)),
        has_part(plaintext(r), closing()),
{
    let h = heading(r.timestamp);
    let rs = reasons_section(r.truncation_reasons);
    let ts = targets_section(r.target_processes);
    let ds = dialogs_section(r.system_dialogs);
    let c = closing();
    let e = Seq::<char>::empty();
    law_a_part_is_found(e, h, rs + ts + ds + c);
    assert(e + h + (rs + ts + ds + c) =~= plaintext(r));
    law_a_part_is_found(h, rs, ts + ds + c);
    assert(h + rs + (ts + ds + c) =~= plaintext(r));
    law_a_part_is_found(h + rs, ts, ds + c);
    assert(h + rs + ts + (ds + c) =~= plaintext(r));
    law_a_part_is_found(h + rs + ts, ds, c);
    law_a_part_is_found(h + rs + ts + ds, c, e);
    assert(h + rs + ts + ds + c + e =~= plaintext(r));
}

/// The plain text names every process with its number, or minus one where it has none.
pub proof fn law_every_process_is_named(r: ReportView, k: int)
    requires
        0 <= k < r.target_processes.len(),
    ensures
        has_part(
            plaintext(r),
            "📌 PROCESS: "@ + r.target_processes[k].name + " (pid="@ + decimal(
                match r.target_processes[k].pid {
                    Some(pid) => pid as int,
                    None => -1,
                },
            ) + ")\n"@,
        ),
        r.target_processes[k].windows.len() == 0 ==> has_part(
            plaintext(r),
            process_line(r.target_processes[k]) + "   (no windows)\n"@,
        ),
{
    lemma_process_parts(r, k);
    let p = r.target_processes[k];
    if p.windows.len() == 0 {
        lemma_part_of_sum(process_line(p) + "   (no windows)\n"@, "\n"@, process_line(p)
            + "   (no windows)\n"@);
        lemma_part_of_part(plaintext(r), process_block(p), process_line(p) + "   (no windows)\n"@);
    }
}

proof fn lemma_process_parts(r: ReportView, k: int)
    requires
        0 <= k < r.target_processes.len(),
    ensures
        has_part(plaintext(r), process_block(r.target_processes[k])),
        has_part(plaintext(r), process_line(r.target_processes[k])),
{
    let p = r.target_processes[k];
    lemma_sections(r);
    lemma_process_in(r.target_processes, k);
    lemma_part_of_part(plaintext(r), targets_section(r.target_processes), process_block(p));
    let line = process_line(p);
    if p.windows.len() == 0 {
        lemma_part_of_sum(line, "   (no windows)\n"@, line);
        lemma_part_of_sum(line + "   (no windows)\n"@, "\n"@, line);
    } else {
        lemma_part_of_sum(line, window_blocks(p.windows), line);
        lemma_part_of_sum(line + window_blocks(p.windows), "\n"@, line);
    }
    lemma_part_of_part(plaintext(r), process_block(p), line);
}

/// Every window of a process is named.
pub proof fn law_every_window_is_named(r: ReportView, k: int, w: int)
    requires
        0 <= k < r.target_processes.len(),
        0 <= w < r.target_processes[k].windows.len(),
    ensures
        has_part(
            plaintext(r),
            "   🪟 WINDOW: \""@ + r.target_processes[k].windows[w].title + "\"\n"@,
        ),
{
    let window = r.target_processes[k].windows[w];
    lemma_window_parts(r, k, w);
    let line = window_line(window);
    lemma_part_of_sum(line, "      (no accessible UI elements)\n"@, line);
    lemma_part_of_sum(line, element_lines(window.elements), line);
    lemma_part_of_part(plaintext(r), window_block(window), line);
}

/// Every element of a window is named by its kind and its name, and by whether it is
/// enabled, where that is known.
pub proof fn law_every_element_is_named(r: ReportView, k: int, w: int, n: int)
    requires
        0 <= k < r.target_processes.len(),
        0 <= w < r.target_processes[k].windows.len(),
        0 <= n < r.target_processes[k].windows[w].elements.len(),
    ensures
        ({
            let e = r.target_processes[k].windows[w].elements[n];
            has_part(
                plaintext(r),
                "      ▸ "@ + e.element_type + " | name=\""@ + e.name + "\""@ + match e.enabled {
                    Some(true) => " | enabled="@ + "true"@ + "\n"@,
                    Some(false) => " | enabled="@ + "false"@ + "\n"@,
                    None => "\n"@,
                },
            )
        }),
{
    let window = r.target_processes[k].windows[w];
    let e = window.elements[n];
    lemma_window_parts(r, k, w);
    let line = window_line(window);
    let lines = element_lines(window.elements);
    lemma_part_of_sum(line, lines, lines);
    lemma_part_of_part(plaintext(r), window_block(window), lines);
    lemma_element_line_in(window.elements, n);
    lemma_part_of_part(plaintext(r), lines, element_line(e));
    let head = "      ▸ "@ + e.element_type + " | name=\""@ + e.name + "\""@;
    if let Some(b) = e.enabled {
        lemma_in_the_middle(head, " | enabled="@, truth_text(b), "\n"@, Seq::empty());
    }
}

/// Texts that are put together in another order of steps are the same.
proof fn lemma_in_the_middle(
    a: Seq<char>,
    x: Seq<char>,
    y: Seq<char>,
    z: Seq<char>,
    b: Seq<char>,
)
    ensures
        a + (x + y + z) + b == a + x + y + z + b,
        a + (x + y + z) == a + x + y + z,
{
    assert(a + (x + y + z) =~= a + x + y + z);
}

proof fn lemma_window_parts(r: ReportView, k: int, w: int)
    requires
        0 <= k < r.target_processes.len(),
        0 <= w < r.target_processes[k].windows.len(),
    ensures
        has_part(plaintext(r), window_block(r.target_processes[k].windows[w])),
{
    let p = r.target_processes[k];
    let blocks = window_blocks(p.windows);
    lemma_process_parts(r, k);
    lemma_part_of_sum(process_line(p), blocks, blocks);
    lemma_part_of_sum(process_line(p) + blocks, "\n"@, blocks);
    lemma_part_of_part(plaintext(r), process_block(p), blocks);
    lemma_window_in(p.windows, w);
    lemma_part_of_part(plaintext(r), blocks, window_block(p.windows[w]));
}

/// Every dialog of the system is named, and every window of it.
pub proof fn law_every_dialog_is_named(r: ReportView, k: int, w: int)
    requires
        0 <= k < r.system_dialogs.len(),
    ensures
        has_part(plaintext(r), "🔒 SYSTEM PROCESS: "@ + r.system_dialogs[k].name + "\n"@),
        0 <= w < r.system_dialogs[k].windows.len() ==> has_part(
            plaintext(r),
            "   🪟 WINDOW: \""@ + r.system_dialogs[k].windows[w].title + "\"\n"@,
        ),
{
    let p = r.system_dialogs[k];
    lemma_sections(r);
    lemma_process_in(r.system_dialogs, k);
    let rule = "----------------------------------------\n"@;
    lemma_part_of_sum(
        rule + "  System Dialogs (Security / Login)\n"@ + rule,
        dialog_blocks(r.system_dialogs),
        dialog_block(p),
    );
    lemma_part_of_part(plaintext(r), dialogs_section(r.system_dialogs), dialog_block(p));
    let line = "🔒 SYSTEM PROCESS: "@ + p.name + "\n"@;
    lemma_part_of_sum(line, dialog_windows(p.windows), line);
    lemma_part_of_sum(line + dialog_windows(p.windows), "\n"@, line);
    lemma_part_of_part(plaintext(r), dialog_block(p), line);
    if 0 <= w < p.windows.len() {
        lemma_window_in(p.windows, w);
        lemma_part_of_sum(line, dialog_windows(p.windows), dialog_windows(p.windows));
        lemma_part_of_sum(line + dialog_windows(p.windows), "\n"@, dialog_windows(p.windows));
        lemma_part_of_part(plaintext(r), dialog_block(p), dialog_windows(p.windows));
        lemma_part_of_part(plaintext(r), dialog_windows(p.windows), window_line(p.windows[w]));
    }
}

/// The plain text says when it was made.
pub proof fn law_the_plain_text_says_when(r: ReportView)
    ensures
        has_part(plaintext(r), "  Generated: "@ + r.timestamp + "\n"@),
{
    lemma_sections(r);
    let rule = "========================================\n"@;
    let name = "  macOS UI Diagnostic Report\n"@;
    let made = "  Generated: "@ + r.timestamp + "\n"@;
    let end = "========================================\n\n"@;
    law_a_part_is_found(rule + name, made, end);
    lemma_in_the_middle(rule + name, "  Generated: "@, r.timestamp, "\n"@, end);
    lemma_part_of_part(plaintext(r), heading(r.timestamp), made);
}

/// The plain text says what was cut, and every reason for it.
pub proof fn law_the_plain_text_says_what_was_cut(r: ReportView, k: int)
    requires
        0 <= k < r.truncation_reasons.len(),
    ensures
        has_part(plaintext(r), "⚠️  Diagnostic collection was truncated.\n"@),
        has_part(plaintext(r), "   - "@ + r.truncation_reasons[k] + "\n"@),
{
    lemma_sections(r);
    let rs = r.truncation_reasons;
    let cut = "⚠️  Diagnostic collection was truncated.\n"@;
    let lines = reason_lines(rs);
    lemma_part_of_sum(cut, lines, cut);
    lemma_part_of_sum(cut + lines, "\n"@, cut);
    lemma_part_of_part(plaintext(r), reasons_section(rs), cut);
    lemma_part_of_sum(cut, lines, lines);
    lemma_part_of_sum(cut + lines, "\n"@, lines);
    lemma_part_of_part(plaintext(r), reasons_section(rs), lines);
    lemma_reason_in(rs, k);
    lemma_part_of_part(plaintext(r), lines, "   - "@ + rs[k] + "\n"@);
}

/// The plain text says that nothing was found, where that is so, and that values are left
/// out.
pub proof fn law_the_plain_text_says_what_is_missing(r: ReportView)
    ensures
        r.target_processes.len() == 0 ==> has_part(
            plaintext(r),
            "⚠️  No target processes found.\n"@,
        ),
        has_part(
            plaintext(r),
            "  Raw AppleScript output is omitted to avoid copying field values.\n"@,
        ),
{
    lemma_sections(r);
    let last = "  Raw AppleScript output is omitted to avoid copying field values.\n"@;
    lemma_part_of_sum("----------------------------------------\n"@, last, last);
    lemma_part_of_part(plaintext(r), closing(), last);
    if r.target_processes.len() == 0 {
        let none = "⚠️  No target processes found.\n"@;
        lemma_part_of_sum(none, "   Make sure Windows App is running.\n\n"@, none);
        lemma_part_of_part(plaintext(r), targets_section(r.target_processes), none);
    }
}

proof fn lemma_reason_in(rs: Seq<Seq<char>>, k: int)
    requires
        0 <= k < rs.len(),
    ensures
        has_part(reason_lines(rs), "   - "@ + rs[k] + "\n"@),
    decreases rs.len(),
{
    let line = "   - "@ + rs.last() + "\n"@;
    assert(reason_lines(rs) =~= reason_lines(rs.drop_last()) + line);
    lemma_part_of_sum(reason_lines(rs.drop_last()), line, "   - "@ + rs[k] + "\n"@);
    if k < rs.len() - 1 {
        lemma_reason_in(rs.drop_last(), k);
        assert(rs.drop_last()[k] == rs[k]);
    }
}

/// Output that fits into sixty-five thousand five hundred and thirty-six bytes is left as
/// it is. Of other output as much of the beginning is kept as leaves room for the mark.
pub proof fn law_as_much_output_is_kept_as_fits(output: Seq<char>, k: int)
    requires
        0 <= k <= output.len(),
    ensures
        vstd::utf8::encode_utf8(output).len() <= 65536 ==> capped_output(output) == output,
        vstd::utf8::encode_utf8(output).len() > 65536 ==> {
            let n = fitting(output, 65504);
            &&& capped_output(output) == output.take(n) + "\n\n[diagnostic output truncated]\n"@
            &&& k <= n <==> vstd::utf8::encode_utf8(output.take(k)).len() <= 65504
        },
        vstd::utf8::encode_utf8(output).len() <= 131072 ==> capped_raw(output, false) == output,
        vstd::utf8::encode_utf8(output).len() > 131072 ==> {
            let n = fitting(output, 131050);
            &&& capped_raw(output, false) == output.take(n) + "\nTRUNCATED:raw-output\n"@
            &&& k <= n <==> vstd::utf8::encode_utf8(output.take(k)).len() <= 131050
        },
        capped_raw(output, true) == output.take(fitting(output, 131050))
            + "\nTRUNCATED:raw-output\n"@,
{
    lemma_utf8_len_is_encoded_len(output);
    law_as_much_is_kept_as_fits(output, 65504, k);
    law_as_much_is_kept_as_fits(output, 131050, k);
}

// ---------------------------------------------------------------------------
// How a protocol text is read
// ---------------------------------------------------------------------------

/// A percent sign and two hexadecimal digits stand for a character; everything else stands
/// for itself.
pub proof fn law_percent_signs_are_decoded(plain: Seq<char>, high: char, low: char, rest: Seq<char>)
    requires
        !plain.contains('%'),
        hex_value(high) is Some,
        hex_value(low) is Some,
    ensures
        percent_decoded(plain) == plain,
        percent_decoded(plain + seq!['%', high, low] + rest) == plain + seq![
            (hex_value(high)->0 * 16 + hex_value(low)->0) as char,
        ] + percent_decoded(rest),
    decreases plain.len(),
{
    let all = plain + seq!['%', high, low] + rest;
    let c = (hex_value(high)->0 * 16 + hex_value(low)->0) as char;
    if plain.len() == 0 {
        assert(plain =~= Seq::<char>::empty());
        assert(all[0] == '%' && all[1] == high && all[2] == low);
        assert(all.skip(3) =~= rest);
        assert(plain + seq![c] + percent_decoded(rest) =~= seq![c] + percent_decoded(rest));
    } else {
        let tail = plain.skip(1);
        assert(plain.contains(plain[0]));
        assert forall|x: char| tail.contains(x) implies plain.contains(x) by {
            let i = choose|i: int| 0 <= i < tail.len() && tail[i] == x;
            assert(plain[i + 1] == x);
        }
        law_percent_signs_are_decoded(tail, high, low, rest);
        assert(all[0] == plain[0]);
        assert(all.skip(1) =~= tail + seq!['%', high, low] + rest);
        assert(seq![plain[0]] + tail =~= plain);
        assert(seq![plain[0]] + (tail + seq![c] + percent_decoded(rest)) =~= plain + seq![c]
            + percent_decoded(rest));
    }
}

/// A hexadecimal digit means what its place in the row says, in small or in capitals.
pub proof fn law_hexadecimal_digits(c: char)
    ensures
        hex_value('0') == Some(0int),
        hex_value('9') == Some(9int),
        hex_value('a') == Some(10int),
        hex_value('f') == Some(15int),
        hex_value('A') == Some(10int),
        hex_value('F') == Some(15int),
        hex_value(c) is Some <==> '0' <= c <= '9' || 'a' <= c <= 'f' || 'A' <= c <= 'F',
        hex_value(c) matches Some(v) ==> 0 <= v < 16 && (c != '9' && c != 'f' && c != 'F' ==> {
            let next = (c as int + 1) as char;
            hex_value(next) == Some(v + 1)
        }),
{
}

/// What separates the words of a value: white space, control characters and the bar.
pub open spec fn parts_words(c: char) -> bool {
    blank(c) || (c as int) < 32 || 127 <= (c as int) < 160 || c == '|'
}

/// Separators between two texts become one space, and those round a text are left out; a
/// text without any stays as it is.
pub proof fn law_values_are_made_of_words(a: Seq<char>, gap: Seq<char>, b: Seq<char>)
    requires
        gap.len() > 0,
        forall|i: int| 0 <= i < gap.len() ==> parts_words(#[trigger] gap[i]),
        forall|i: int| 0 <= i < b.len() ==> !parts_words(#[trigger] b[i]),
    ensures
        joined_words(b).0 == b,
        b.len() > 0 && joined_words(a).0.len() > 0 ==> joined_words(a + gap + b).0 == joined_words(
            a,
        ).0 + seq![' '] + b,
        b.len() > 0 && joined_words(a).0.len() == 0 ==> joined_words(a + gap + b).0 == b,
        joined_words(a + gap).0 == joined_words(a).0,
{
    lemma_gap(a, gap);
    lemma_word(Seq::empty(), b);
    assert(Seq::<char>::empty() + b =~= b);
    lemma_word(a + gap, b);
}

proof fn lemma_gap(a: Seq<char>, gap: Seq<char>)
    requires
        gap.len() > 0,
        forall|i: int| 0 <= i < gap.len() ==> parts_words(#[trigger] gap[i]),
    ensures
        joined_words(a + gap) == (joined_words(a).0, joined_words(a).0.len() > 0),
    decreases gap.len(),
{
    let s = a + gap;
    assert(parts_words(gap[gap.len() - 1]));
    assert(s.last() == gap.last());
    if gap.len() == 1 {
        assert(s.drop_last() =~= a);
    } else {
        assert forall|i: int| 0 <= i < gap.drop_last().len() implies parts_words(
            #[trigger] gap.drop_last()[i],
        ) by {
            assert(parts_words(gap[i]));
        }
        lemma_gap(a, gap.drop_last());
        assert(s.drop_last() =~= a + gap.drop_last());
    }
}

proof fn lemma_word(a: Seq<char>, b: Seq<char>)
    requires
        forall|i: int| 0 <= i < b.len() ==> !parts_words(#[trigger] b[i]),
    ensures
        b.len() > 0 ==> joined_words(a + b) == (
            joined_words(a).0 + (if joined_words(a).1 {
                seq![' ']
            } else {
                Seq::<char>::empty()
            }) + b,
            false,
        ),
        b.len() == 0 ==> joined_words(a + b) == joined_words(a),
    decreases b.len(),
{
    if b.len() == 0 {
        assert(a + b =~= a);
    } else {
        let front = b.drop_last();
        assert forall|i: int| 0 <= i < front.len() implies !parts_words(#[trigger] front[i]) by {
            assert(!parts_words(b[i]));
        }
        assert(!parts_words(b[b.len() - 1]));
        lemma_word(a, front);
        assert((a + b).drop_last() =~= a + front);
        assert((a + b).last() == b.last());
        let lead = if joined_words(a).1 {
            seq![' ']
        } else {
            Seq::<char>::empty()
        };
        let out = joined_words(a).0;
        if front.len() > 0 {
            assert((out + lead + front).push(b.last()) =~= out + lead + b);
        } else if joined_words(a).1 {
            assert(out.push(' ').push(b.last()) =~= out + lead + b);
        } else {
            assert(out.push(b.last()) =~= out + lead + b);
        }
    }
}

/// Of a value a hundred and sixty characters are read.
pub proof fn law_how_much_of_a_value_is_read(s: Seq<char>)
    ensures
        s.len() <= 160 ==> sanitized(s) == joined_words(s).0,
        s.len() > 160 ==> sanitized(s) == joined_words(s.take(160)).0,
        decoded(s) == sanitized(percent_decoded(s.take(fitting(s, 640)))),
{
}

/// A number is read back as it is written.
pub proof fn law_a_number_is_read_back(n: i32)
    ensures
        pid_value(decimal(n as int)) == Some(n),
{
    if n >= 0 {
        lemma_digits_read(n as int);
        let s = decimal(n as int);
        assert('0' <= s[0] <= '9');
    } else {
        lemma_digits_read(-(n as int));
        let s = decimal(n as int);
        assert(s[0] == '-');
        assert(s.skip(1) =~= digits(-(n as int)));
    }
}

proof fn lemma_digits_read(n: int)
    requires
        n >= 0,
    ensures
        digits_value(digits(n)) == Some(n),
        digits(n).len() > 0,
        '0' <= digits(n)[0] <= '9',
    decreases n,
{
    let s = digits(n);
    if n < 10 {
        assert(s.drop_last() =~= Seq::<char>::empty());
        assert(digits_value(s.drop_last()) == Some(0int));
    } else {
        lemma_digits_read(n / 10);
        assert(s.drop_last() =~= digits(n / 10));
        assert(s.last() == digit(n % 10));
        assert(s[0] == digits(n / 10)[0]);
    }
}

/// Five kinds of record are told by how they begin; any other line is passed over.
pub proof fn law_kinds_of_records(
    st: ParseView,
    rest: Seq<char>,
    app: Seq<char>,
    trusted: Option<Seq<i32>>,
)
    ensures
        read_record(st, "TRUNCATED:"@ + rest, app, trusted) == note_reason(
            st,
            truncation_text(trimmed(rest)),
        ),
        read_record(st, "PROCESS:"@ + rest, app, trusted) == read_process(st, rest, app, trusted),
        read_record(st, "SYSTEM_PROCESS:"@ + rest, app, trusted) == read_system_process(st, rest),
        read_record(st, "WINDOW:"@ + rest, app, trusted) == read_window(st, rest),
        read_record(st, "ELEMENT:"@ + rest, app, trusted) == read_element(st, rest),
        rest.len() == 0 || (rest[0] != 'T' && rest[0] != 'P' && rest[0] != 'S' && rest[0] != 'W'
            && rest[0] != 'E') ==> read_record(st, rest, app, trusted) == st,
{
    reveal_strlit("TRUNCATED:");
    reveal_strlit("PROCESS:");
    reveal_strlit("SYSTEM_PROCESS:");
    reveal_strlit("WINDOW:");
    reveal_strlit("ELEMENT:");
    law_the_rest_after_a_beginning("TRUNCATED:"@, rest);
    law_the_rest_after_a_beginning("PROCESS:"@, rest);
    law_the_rest_after_a_beginning("SYSTEM_PROCESS:"@, rest);
    law_the_rest_after_a_beginning("WINDOW:"@, rest);
    law_the_rest_after_a_beginning("ELEMENT:"@, rest);
    lemma_first_character("PROCESS:"@ + rest);
    lemma_first_character("SYSTEM_PROCESS:"@ + rest);
    lemma_first_character("WINDOW:"@ + rest);
    lemma_first_character("ELEMENT:"@ + rest);
    lemma_first_character(rest);
}

/// A line that begins with one word does not begin with another that begins otherwise.
proof fn lemma_first_character(line: Seq<char>)
    ensures
        line.len() == 0 || line[0] != 'T' ==> after_prefix(line, "TRUNCATED:"@) is None,
        line.len() == 0 || line[0] != 'P' ==> after_prefix(line, "PROCESS:"@) is None,
        line.len() == 0 || line[0] != 'S' ==> after_prefix(line, "SYSTEM_PROCESS:"@) is None,
        line.len() == 0 || line[0] != 'W' ==> after_prefix(line, "WINDOW:"@) is None,
        line.len() == 0 || line[0] != 'E' ==> after_prefix(line, "ELEMENT:"@) is None,
{
    reveal_strlit("TRUNCATED:");
    reveal_strlit("PROCESS:");
    reveal_strlit("SYSTEM_PROCESS:");
    reveal_strlit("WINDOW:");
    reveal_strlit("ELEMENT:");
    assert("TRUNCATED:"@[0] == 'T');
    assert("PROCESS:"@[0] == 'P');
    assert("SYSTEM_PROCESS:"@[0] == 'S');
    assert("WINDOW:"@[0] == 'W');
    assert("ELEMENT:"@[0] == 'E');
    assert forall|w: Seq<char>| w.len() > 0 && #[trigger] w.is_prefix_of(line) implies line.len()
        > 0 && line[0] == w[0] by {
        assert(line.subrange(0, w.len() as int)[0] == line[0]);
    }
}

/// The records of a text are read line by line, each without the white space round it, up
/// to four thousand and ninety-six.
pub proof fn law_records_are_read_line_by_line(
    st: ParseView,
    line: Seq<char>,
    rest: Seq<char>,
    room: int,
    app: Seq<char>,
    trusted: Option<Seq<i32>>,
    text: Seq<char>,
    app_name: Seq<char>,
)
    requires
        room > 0,
        !line.contains('\n'),
    ensures
        read_lines(st, line + seq!['\n'] + rest, room, app, trusted) == read_lines(
            read_record(st, trimmed(line), app, trusted),
            rest,
            room - 1,
            app,
            trusted,
        ),
        line.len() > 0 ==> read_lines(st, line, room, app, trusted) == read_record(
            st,
            trimmed(line),
            app,
            trusted,
        ),
        read_lines(st, Seq::empty(), room, app, trusted) == st,
        text.len() > 0 ==> read_lines(st, text, 0, app, trusted).reasons == with_reason(
            st.reasons,
            "diagnostic parser truncated input"@,
        ),
        read_text(text, app_name, trusted) == close_process(
            read_lines(empty_parse(), text, 4096, sanitized(app_name), trusted),
        ),
{
    let all = line + seq!['\n'] + rest;
    lemma_until(line, '\n', rest);
    assert(all.take(line.len() as int) =~= line);
    assert(all.skip(line.len() as int + 1) =~= rest);
    assert(line.take(line.len() as int) =~= line);
}

proof fn lemma_until(s: Seq<char>, c: char, rest: Seq<char>)
    requires
        !s.contains(c),
    ensures
        until(s + seq![c] + rest, c) == s.len(),
        until(s, c) == s.len(),
    decreases s.len(),
{
    let all = s + seq![c] + rest;
    if s.len() == 0 {
        assert(all.first() == c);
    } else {
        assert(s.contains(s[0]));
        assert(all.first() == s[0]);
        assert(all.drop_first() =~= s.drop_first() + seq![c] + rest);
        assert forall|x: char| s.drop_first().contains(x) implies s.contains(x) by {
            let i = choose|i: int| 0 <= i < s.drop_first().len() && s.drop_first()[i] == x;
            assert(s[i + 1] == x);
        }
        lemma_until(s.drop_first(), c, rest);
    }
}

/// A record of a process opens it where it is the application, under a trusted number, and
/// there is room; what was open before is closed.
pub proof fn law_a_process_is_opened(
    st: ParseView,
    name: Seq<char>,
    number: Seq<char>,
    app: Seq<char>,
    trusted: Option<Seq<i32>>,
)
    requires
        first_at(name + "|pid="@ + number, "|pid="@, 0) == Some(name.len() as int),
    ensures
        ({
            let closed = close_process(st);
            let t = read_process(st, name + "|pid="@ + number, app, trusted);
            let pid = pid_value(decoded(number));
            &&& !t.in_system
            &&& t.window == closed.window
            &&& t.targets == closed.targets && t.dialogs == closed.dialogs
            &&& decoded(trimmed(name)) == app && closed.processes < 8 && (trusted is None || (pid
                is Some && trusted->0.contains(pid->0))) ==> {
                &&& t.process == Some(ProcessView { name: app, pid, windows: Seq::empty() })
                &&& t.processes == closed.processes + 1
                &&& t.reasons == closed.reasons
            }
            &&& decoded(trimmed(name)) == app && closed.processes >= 8 ==> t.process
                == closed.process && t.reasons == with_reason(
                closed.reasons,
                "diagnostic collection truncated"@,
            )
            &&& decoded(trimmed(name)) != app ==> t.process == closed.process && t.reasons
                == closed.reasons
        }),
{
    let rest = name + "|pid="@ + number;
    assert(rest.take(name.len() as int) =~= name);
    assert(rest.skip(name.len() as int + "|pid="@.len()) =~= number);
}

/// A record of a window opens it in the process that is open, where there is room for it,
/// and a record of an element puts one more into the window that is open.
pub proof fn law_windows_and_elements_are_kept(st: ParseView, rest: Seq<char>)
    requires
        st.process is Some,
    ensures
        ({
            let closed = close_window(st);
            let t = read_window(st, rest);
            &&& closed.windows < 32 ==> {
                &&& t.window == Some(WindowView { title: decoded(rest), elements: Seq::empty() })
                &&& t.windows == closed.windows + 1
                &&& t.process == closed.process
            }
            &&& closed.windows >= 32 ==> t.window is None && t.reasons == with_reason(
                closed.reasons,
                "diagnostic collection truncated"@,
            )
            &&& st.window matches Some(w) ==> closed.process == Some(
                ProcessView { windows: st.process->0.windows.push(w), ..st.process->0 },
            )
        }),
        st.window matches Some(w) ==> {
            let t = read_element(st, rest);
            &&& st.elements < 256 ==> {
                &&& t.window matches Some(kept) && kept.title == w.title && kept.elements.len()
                    == w.elements.len() + 1 && kept.elements.drop_last() == w.elements
                &&& t.elements == st.elements + 1
                &&& t.process == st.process
            }
            &&& st.elements >= 256 ==> t.window == st.window && t.reasons == with_reason(
                st.reasons,
                "diagnostic collection truncated"@,
            )
        },
{
    if let Some(w) = st.window {
        if st.elements < 256 {
            let kept = read_element(st, rest).window->0;
            assert(kept.elements.drop_last() =~= w.elements);
        }
    }
}

/// A process that is closed is kept: among the dialogs where it is one of the system, and
/// otherwise among the targets.
pub proof fn law_a_closed_process_is_kept(st: ParseView, p: ProcessView)
    requires
        st.process == Some(p),
        st.window is None,
    ensures
        st.in_system ==> close_process(st).dialogs == st.dialogs.push(p) && close_process(
            st,
        ).targets == st.targets,
        !st.in_system ==> close_process(st).targets == st.targets.push(p) && close_process(
            st,
        ).dialogs == st.dialogs,
        close_process(st).process is None,
{
}

/// Two processes of the system are kept: the one that asks for passwords and the one of the
/// login window.
pub proof fn law_which_system_processes_are_kept(st: ParseView, rest: Seq<char>)
    ensures
        ({
            let closed = close_process(st);
            let name = decoded(trimmed(rest));
            let t = read_system_process(st, rest);
            &&& t.in_system
            &&& (name == "SecurityAgent"@ || name == "loginwindow"@) && closed.processes < 8
                ==> t.process == Some(ProcessView { name, pid: None, windows: Seq::empty() })
            &&& name != "SecurityAgent"@ && name != "loginwindow"@ ==> t.process == closed.process
        }),
{
}

/// A field names the element, gives its value, or says whether it is enabled; a part
/// without a key is its kind, the first time.
pub proof fn law_fields_of_an_element(f: FieldsView, value: Seq<char>)
    ensures
        read_field(f, "name="@ + value).element == (ElementView {
            name: decoded(value),
            ..f.element
        }),
        read_field(f, "value="@ + value).element == (ElementView {
            value: Some(decoded(value)),
            ..f.element
        }),
        read_field(f, "enabled="@ + value).element == (ElementView {
            enabled: Some(decoded(value) == "true"@),
            ..f.element
        }),
        !value.contains('=') && !f.typed ==> read_field(f, value) == (FieldsView {
            element: ElementView { element_type: decoded(value), ..f.element },
            typed: true,
        }),
        !value.contains('=') && f.typed ==> read_field(f, value) == f,
{
    reveal_strlit("name=");
    reveal_strlit("value=");
    reveal_strlit("enabled=");
    reveal_strlit("name");
    reveal_strlit("value");
    reveal_strlit("enabled");
    assert("name="@ =~= "name"@ + seq!['=']);
    lemma_field("name"@, "name="@, value);
    assert("value="@ =~= "value"@ + seq!['=']);
    lemma_field("value"@, "value="@, value);
    assert("enabled="@ =~= "enabled"@ + seq!['=']);
    lemma_field("enabled"@, "enabled="@, value);
    assert("name"@.len() == 4 && "value"@.len() == 5 && "enabled"@.len() == 7);
}

proof fn lemma_field(key: Seq<char>, start: Seq<char>, value: Seq<char>)
    requires
        start == key + seq!['='],
        !key.contains('='),
    ensures
        (start + value).contains('='),
        until(start + value, '=') == key.len(),
        (start + value).take(key.len() as int) == key,
        (start + value).skip(key.len() as int + 1) == value,
{
    lemma_until(key, '=', value);
    assert(start + value =~= key + seq!['='] + value);
    assert((start + value)[key.len() as int] == '=');
    assert((start + value).take(key.len() as int) =~= key);
    assert((start + value).skip(key.len() as int + 1) =~= value);
}

/// The fields of an element stand between bars, up to eight of them.
pub proof fn law_fields_stand_between_bars(
    st: ParseView,
    f: FieldsView,
    field: Seq<char>,
    rest: Seq<char>,
    room: int,
)
    requires
        room > 0,
        !field.contains('|'),
    ensures
        read_fields(f, field + seq!['|'] + rest, room) == read_fields(
            read_field(f, field),
            rest,
            room - 1,
        ),
        read_fields(f, field, room) == read_field(f, field),
        read_fields(f, field, 0) == f,
        st.process is Some && st.window is Some && st.elements < 256 ==> read_element(
            st,
            rest,
        ).window->0.elements.last() == read_fields(
            crate::protocol::empty_fields(),
            rest,
            8,
        ).element,
{
    let all = field + seq!['|'] + rest;
    lemma_until(field, '|', rest);
    assert(all.take(field.len() as int) =~= field);
    assert(all.skip(field.len() as int + 1) =~= rest);
    assert(field.take(field.len() as int) =~= field);
}

/// What a mark of truncation comes to in the report.
pub proof fn law_reasons_for_truncation(reason: Seq<char>)
    ensures
        truncation_text("collection"@) == "diagnostic collection truncated"@,
        truncation_text("raw-output"@) == "diagnostic raw output truncated"@,
        truncation_text("secure-traversal"@) == "diagnostic secure-field traversal truncated"@,
        reason != "collection"@ && reason != "raw-output"@ && reason != "secure-traversal"@
            ==> truncation_text(reason) == "diagnostic parser truncated input"@,
{
    reveal_strlit("collection");
    reveal_strlit("raw-output");
    reveal_strlit("secure-traversal");
    assert("collection"@[0] == 'c' && "raw-output"@[0] == 'r' && "secure-traversal"@[0] == 's');
}

/// A reason is noted once, behind those that were noted before.
pub proof fn law_a_reason_is_noted_once(reasons: Seq<Seq<char>>, reason: Seq<char>)
    ensures
        with_reason(reasons, reason).contains(reason),
        reasons.contains(reason) ==> with_reason(reasons, reason) == reasons,
        !reasons.contains(reason) ==> with_reason(reasons, reason) == reasons.push(reason),
{
    assert(reasons.push(reason)[reasons.len() as int] == reason);
}

/// A blank title or name stays blank, and any other is replaced; of the kinds of elements
/// the seven known ones stay.
pub proof fn law_what_is_redacted(s: Seq<char>)
    ensures
        redacted_title(s) == if trimmed(s).len() == 0 {
            Seq::empty()
        } else {
            "[redacted title]"@
        },
        redacted_text(s) == if trimmed(s).len() == 0 {
            Seq::empty()
        } else {
            "[redacted]"@
        },
        redacted_element_type(s) == if trimmed(sanitized(s)).len() == 0 {
            Seq::empty()
        } else if sanitized(s) == "text_field"@ || sanitized(s) == "secure_text_field"@
            || sanitized(s) == "button"@ || sanitized(s) == "static_text"@ || sanitized(s)
            == "pop_up_button"@ || sanitized(s) == "check_box"@ || sanitized(s)
            == "radio_button"@ {
            sanitized(s)
        } else {
            "[redacted type]"@
        },
{
}

// ---------------------------------------------------------------------------
// What is rendered
// ---------------------------------------------------------------------------

/// No text of an element takes more than a hundred and sixty characters.
pub open spec fn short_element(e: ElementView) -> bool {
    &&& e.element_type.len() <= 160
    &&& e.name.len() <= 160
    &&& e.value is Some ==> e.value->0.len() <= 160
}

pub open spec fn short_window(w: WindowView) -> bool {
    &&& w.title.len() <= 160
    &&& forall|i: int| 0 <= i < w.elements.len() ==> short_element(#[trigger] w.elements[i])
}

pub open spec fn short_process(p: ProcessView) -> bool {
    &&& p.name.len() <= 160
    &&& forall|i: int| 0 <= i < p.windows.len() ==> short_window(#[trigger] p.windows[i])
}

proof fn lemma_elements_kept(es: Seq<ElementView>, room: int)
    requires
        es.len() <= room,
        forall|i: int| 0 <= i < es.len() ==> short_element(#[trigger] es[i]),
    ensures
        ({
            let b = bound_elements(es, room);
            b.kept == es && b.elements == room - es.len() && !b.exhausted && !b.truncated
        }),
    decreases es.len(),
{
    if es.len() > 0 {
        let rest = es.drop_first();
        assert(short_element(es[0]));
        assert forall|i: int| 0 <= i < rest.len() implies short_element(#[trigger] rest[i]) by {
            assert(short_element(es[i + 1]));
        }
        lemma_elements_kept(rest, room - 1);
        assert(bounded_element(es[0]) == es[0]);
        assert(seq![es[0]] + rest =~= es);
    } else {
        assert(es =~= Seq::<ElementView>::empty());
    }
}

proof fn lemma_windows_kept(ws: Seq<WindowView>, windows: int, elements: int)
    requires
        ws.len() <= windows,
        window_element_count(ws) <= elements,
        forall|i: int| 0 <= i < ws.len() ==> short_window(#[trigger] ws[i]),
    ensures
        ({
            let b = bound_windows(ws, windows, elements);
            &&& b.kept == ws
            &&& b.windows == windows - ws.len()
            &&& b.elements == elements - window_element_count(ws)
            &&& !b.truncated
        }),
        window_element_count(ws) >= 0,
    decreases ws.len(),
{
    if ws.len() > 0 {
        let rest = ws.drop_first();
        let first = ws[0];
        assert(short_window(first));
        assert forall|i: int| 0 <= i < rest.len() implies short_window(#[trigger] rest[i]) by {
            assert(short_window(ws[i + 1]));
        }
        lemma_element_count_positive(rest);
        lemma_elements_kept(first.elements, elements);
        lemma_windows_kept(rest, windows - 1, elements - first.elements.len());
        assert(seq![first] + rest =~= ws);
    } else {
        assert(ws =~= Seq::<WindowView>::empty());
    }
}

proof fn lemma_element_count_positive(ws: Seq<WindowView>)
    ensures
        window_element_count(ws) >= 0,
    decreases ws.len(),
{
    if ws.len() > 0 {
        lemma_element_count_positive(ws.drop_first());
    }
}

proof fn lemma_counts_positive(ps: Seq<ProcessView>)
    ensures
        window_count(ps) >= 0,
        element_count(ps) >= 0,
    decreases ps.len(),
{
    if ps.len() > 0 {
        lemma_counts_positive(ps.drop_first());
        lemma_element_count_positive(ps.first().windows);
    }
}

proof fn lemma_processes_kept(ps: Seq<ProcessView>, processes: int, windows: int, elements: int)
    requires
        ps.len() <= processes,
        window_count(ps) <= windows,
        element_count(ps) <= elements,
        forall|i: int| 0 <= i < ps.len() ==> short_process(#[trigger] ps[i]),
    ensures
        ({
            let b = bound_processes(ps, processes, windows, elements);
            &&& b.kept == ps
            &&& b.processes == processes - ps.len()
            &&& b.windows == windows - window_count(ps)
            &&& b.elements == elements - element_count(ps)
            &&& !b.truncated
        }),
    decreases ps.len(),
{
    if ps.len() > 0 {
        let rest = ps.drop_first();
        let first = ps[0];
        assert(short_process(first));
        assert forall|i: int| 0 <= i < rest.len() implies short_process(#[trigger] rest[i]) by {
            assert(short_process(ps[i + 1]));
        }
        lemma_counts_positive(rest);
        lemma_element_count_positive(first.windows);
        lemma_windows_kept(first.windows, windows, elements);
        lemma_processes_kept(
            rest,
            processes - 1,
            windows - first.windows.len(),
            elements - window_element_count(first.windows),
        );
        assert(seq![first] + rest =~= ps);
    } else {
        assert(ps =~= Seq::<ProcessView>::empty());
    }
}

/// A report that is within the limits, and whose texts are short, is rendered whole and is
/// not marked.
pub proof fn law_a_small_report_is_rendered_whole(
    r: ReportView,
    processes: int,
    windows: int,
    elements: int,
)
    requires
        r.target_processes.len() + r.system_dialogs.len() <= processes,
        window_count(r.target_processes) + window_count(r.system_dialogs) <= windows,
        element_count(r.target_processes) + element_count(r.system_dialogs) <= elements,
        r.timestamp.len() <= 160,
        forall|i: int|
            0 <= i < r.target_processes.len() ==> short_process(#[trigger] r.target_processes[i]),
        forall|i: int|
            0 <= i < r.system_dialogs.len() ==> short_process(#[trigger] r.system_dialogs[i]),
    ensures
        ({
            let out = json_output(r, false, processes, windows, elements);
            &&& out.timestamp == r.timestamp
            &&& out.target_processes == r.target_processes
            &&& out.system_dialogs == r.system_dialogs
            &&& out.truncation_reasons == r.truncation_reasons
            &&& out.truncated is None
        }),
        json_output(r, true, processes, windows, elements).truncated == Some(
            "diagnostic output truncated"@,
        ),
{
    lemma_counts_positive(r.target_processes);
    lemma_counts_positive(r.system_dialogs);
    lemma_processes_kept(r.target_processes, processes, windows, elements);
    lemma_processes_kept(
        r.system_dialogs,
        processes - r.target_processes.len(),
        windows - window_count(r.target_processes),
        elements - element_count(r.target_processes),
    );
}

/// A text that is too long is cut after a hundred and sixty characters and marked.
pub proof fn law_a_long_text_is_cut(s: Seq<char>)
    ensures
        s.len() <= 160 ==> bounded_scalar(s) == s,
        s.len() > 160 ==> bounded_scalar(s) == s.take(160) + "[truncated]"@,
{
}

/// A rendering that is too long is tried again with half the elements, and so on until
/// there is none; then with half the windows, and then with half the processes. The first
/// has eight processes, thirty-two windows and two hundred and fifty-six elements.
pub proof fn law_renderings_are_halved(l: JsonLimits)
    ensures
        first_limits() == (JsonLimits {
            forced: false,
            processes: 8,
            windows: 32,
            elements: 256,
        }),
        l.elements > 1 ==> (next_limits(l) matches Some(t) && t.forced && t.processes == l.processes
            && t.windows == l.windows && l.elements <= 2 * t.elements <= l.elements + 1),
        l.elements == 1 ==> (next_limits(l) matches Some(t) && t.forced && t.processes
            == l.processes && t.windows == l.windows && t.elements == 0),
        l.elements == 0 && l.windows > 1 ==> (next_limits(l) matches Some(t) && t.forced
            && t.processes == l.processes && t.elements == 0 && l.windows <= 2 * t.windows
            <= l.windows + 1),
        l.elements == 0 && l.windows == 1 ==> (next_limits(l) matches Some(t) && t.forced
            && t.processes == l.processes && t.elements == 0 && t.windows == 0),
        l.elements == 0 && l.windows == 0 && l.processes > 1 ==> (next_limits(l) matches Some(t)
            && t.forced && t.elements == 0 && t.windows == 0 && l.processes <= 2 * t.processes
            <= l.processes + 1),
        l.elements == 0 && l.windows == 0 && l.processes == 1 ==> (next_limits(l) matches Some(t)
            && t.forced && t.elements == 0 && t.windows == 0 && t.processes == 0),
        next_limits(l) is None <==> l.elements == 0 && l.windows == 0 && l.processes == 0,
{
}

// ---------------------------------------------------------------------------
// What the collector is told, and what it kept
// ---------------------------------------------------------------------------

/// Of the output of the collector as much of the beginning is kept as fits.
pub proof fn law_how_much_is_captured(all: Seq<u8>, limit: int)
    requires
        0 <= limit,
    ensures
        captured(all, limit).is_prefix_of(all),
        captured(all, limit).len() == if all.len() <= limit {
            all.len() as int
        } else {
            limit
        },
{
    assert(captured(all, limit) =~= all.take(captured(all, limit).len() as int));
}

/// Every reason for which something was cut is given: that the output was, that the errors
/// were, and what the parser noted.
pub proof fn law_every_reason_is_given(
    stdout_truncated: bool,
    stderr_truncated: bool,
    parsed_reasons: Seq<Seq<char>>,
    reason: Seq<char>,
)
    ensures
        all_reasons(stdout_truncated, stderr_truncated, parsed_reasons).contains(reason) <==> {
            ||| stdout_truncated && reason == "diagnostic raw output truncated"@
            ||| stderr_truncated && reason == "diagnostic subprocess stderr truncated"@
            ||| parsed_reasons.contains(reason)
        },
{
    let first = if stdout_truncated {
        seq!["diagnostic raw output truncated"@]
    } else {
        Seq::empty()
    };
    assert(first.contains(reason) <==> stdout_truncated && reason
        == "diagnostic raw output truncated"@) by {
        if stdout_truncated {
            assert(first[0] == "diagnostic raw output truncated"@);
        }
    }
    let second = if stderr_truncated {
        with_reason(first, "diagnostic subprocess stderr truncated"@)
    } else {
        first
    };
    lemma_noted(first, "diagnostic subprocess stderr truncated"@, reason);
    lemma_all_noted(second, parsed_reasons, reason);
}

proof fn lemma_noted(reasons: Seq<Seq<char>>, noted: Seq<char>, reason: Seq<char>)
    ensures
        with_reason(reasons, noted).contains(reason) <==> reasons.contains(reason) || reason
            == noted,
{
    let more = reasons.push(noted);
    assert(more[reasons.len() as int] == noted);
    if reasons.contains(reason) {
        let i = choose|i: int| 0 <= i < reasons.len() && reasons[i] == reason;
        assert(more[i] == reason);
    }
    if more.contains(reason) {
        let i = choose|i: int| 0 <= i < more.len() && more[i] == reason;
        if i < reasons.len() {
            assert(reasons[i] == reason);
        }
    }
}

proof fn lemma_all_noted(reasons: Seq<Seq<char>>, more: Seq<Seq<char>>, reason: Seq<char>)
    ensures
        with_reasons(reasons, more).contains(reason) <==> reasons.contains(reason)
            || more.contains(reason),
    decreases more.len(),
{
    if more.len() > 0 {
        let front = more.drop_last();
        lemma_all_noted(reasons, front, reason);
        lemma_noted(with_reasons(reasons, front), more.last(), reason);
        assert(more.contains(reason) <==> front.contains(reason) || reason == more.last()) by {
            assert(more[more.len() - 1] == more.last());
            if front.contains(reason) {
                let i = choose|i: int| 0 <= i < front.len() && front[i] == reason;
                assert(more[i] == reason);
            }
            if more.contains(reason) {
                let i = choose|i: int| 0 <= i < more.len() && more[i] == reason;
                if i < front.len() {
                    assert(front[i] == reason);
                }
            }
        }
    }
}

/// The processes are listed in curly brackets, each number in quotes, with commas between.
pub proof fn law_how_processes_are_listed(pids: Seq<i32>, a: i32, b: i32)
    ensures
        quoted_pids(Seq::empty()) == Seq::<char>::empty(),
        quoted_pids(seq![a]) == seq!['"'] + decimal(a as int) + seq!['"'],
        pids.len() > 0 ==> quoted_pids(pids.push(b)) == quoted_pids(pids) + ", "@ + (seq!['"']
            + decimal(b as int) + seq!['"']),
        pid_list_literal(pids) == seq!['{'] + quoted_pids(pids) + seq!['}'],
{
    assert(pids.push(b).drop_last() =~= pids);
    assert(quoted_pids(pids) + ", "@ + (seq!['"'] + decimal(b as int) + seq!['"']) =~= quoted_pids(
        pids,
    ) + ", "@ + seq!['"'] + decimal(b as int) + seq!['"']);
}

/// Each script holds the name of the application as a literal, and the processes.
pub proof fn law_what_the_scripts_are_aimed_at(app_name: Seq<char>, pids: Seq<i32>)
    ensures
        has_part(diagnostic_script(app_name, pids), string_literal(app_name)),
        has_part(diagnostic_script(app_name, pids), pid_list_literal(pids)),
        has_part(click_script(app_name, pids), string_literal(app_name)),
        has_part(click_script(app_name, pids), pid_list_literal(pids)),
        has_part(close_script(app_name, pids), string_literal(app_name)),
        has_part(close_script(app_name, pids), pid_list_literal(pids)),
{
    lemma_aimed(
        crate::applescript::CLICK_NAME@,
        string_literal(app_name),
        crate::applescript::CLICK_PIDS@,
        pid_list_literal(pids),
        crate::applescript::CLICK_END@,
    );
    lemma_aimed(
        crate::applescript::CLOSE_NAME@,
        string_literal(app_name),
        crate::applescript::CLOSE_PIDS@,
        pid_list_literal(pids),
        crate::applescript::CLOSE_END@,
    );
    let head = crate::applescript::COLLECT_DEPTH@ + decimal(4) + crate::applescript::COLLECT_ELEMENTS@
        + decimal(24) + crate::applescript::COLLECT_FIELDS@ + decimal(8)
        + crate::applescript::COLLECT_WINDOWS@ + decimal(32)
        + crate::applescript::COLLECT_DIAGNOSTIC_ELEMENTS@ + decimal(256)
        + crate::applescript::COLLECT_VALUE_CHARS@ + decimal(160)
        + crate::applescript::COLLECT_TARGET_NAME@;
    lemma_aimed(
        head,
        string_literal(app_name),
        crate::applescript::COLLECT_TARGET_PIDS@,
        pid_list_literal(pids),
        crate::applescript::COLLECT_END@,
    );
}

proof fn lemma_aimed(
    a: Seq<char>,
    name: Seq<char>,
    b: Seq<char>,
    list: Seq<char>,
    c: Seq<char>,
)
    ensures
        has_part(a + name + b + list + c, name),
        has_part(a + name + b + list + c, list),
{
    law_a_part_is_found(a, name, b + list + c);
    assert(a + name + (b + list + c) =~= a + name + b + list + c);
    law_a_part_is_found(a + name + b, list, c);
}

/// Where there are too many elements, the first ones are rendered, as many as there is
/// room for.
pub proof fn law_the_first_elements_are_rendered(es: Seq<ElementView>, room: int, k: int)
    requires
        0 <= room,
    ensures
        ({
            let b = bound_elements(es, room);
            let n = if es.len() <= room {
                es.len() as int
            } else {
                room
            };
            &&& b.kept.len() == n
            &&& b.exhausted == (es.len() > room)
            &&& b.elements == room - n
            &&& 0 <= k < n ==> b.kept[k] == (ElementView {
                element_type: bounded_scalar(es[k].element_type),
                name: bounded_scalar(es[k].name),
                value: if es[k].value is Some {
                    Some(bounded_scalar(es[k].value->0))
                } else {
                    None
                },
                enabled: es[k].enabled,
            })
        }),
    decreases es.len(),
{
    if es.len() > 0 && room > 0 {
        law_the_first_elements_are_rendered(es.drop_first(), room - 1, k - 1);
        let rest = bound_elements(es.drop_first(), room - 1);
        let b = bound_elements(es, room);
        if k > 0 && k < b.kept.len() {
            assert(b.kept[k] == rest.kept[k - 1]);
            assert(es.drop_first()[k - 1] == es[k]);
        }
    }
}

/// Of windows and processes too the first are rendered; each process with its name and its
/// number, and each window with its title, as far as these are short.
pub proof fn law_the_first_processes_are_rendered(
    ps: Seq<ProcessView>,
    processes: int,
    windows: int,
    elements: int,
    k: int,
)
    requires
        0 <= processes,
    ensures
        ({
            let b = bound_processes(ps, processes, windows, elements);
            let n = if ps.len() <= processes {
                ps.len() as int
            } else {
                processes
            };
            &&& b.kept.len() == n
            &&& 0 <= k < n ==> b.kept[k].name == bounded_scalar(ps[k].name) && b.kept[k].pid
                == ps[k].pid
            &&& ps.len() > processes ==> b.truncated
        }),
    decreases ps.len(),
{
    if ps.len() > 0 && processes > 0 {
        let ws = bound_windows(ps.first().windows, windows, elements);
        law_the_first_processes_are_rendered(
            ps.drop_first(),
            processes - 1,
            ws.windows,
            ws.elements,
            k - 1,
        );
        let rest = bound_processes(ps.drop_first(), processes - 1, ws.windows, ws.elements);
        let b = bound_processes(ps, processes, windows, elements);
        if k > 0 && k < b.kept.len() {
            assert(b.kept[k] == rest.kept[k - 1]);
            assert(ps.drop_first()[k - 1] == ps[k]);
        }
    }
}

/// The windows of a process are rendered in order, each with its title and with its first
/// elements, while there is room for windows and for elements.
pub proof fn law_the_first_windows_are_rendered(
    ws: Seq<WindowView>,
    windows: int,
    elements: int,
    k: int,
)
    requires
        0 <= windows,
        0 <= elements,
    ensures
        ({
            let b = bound_windows(ws, windows, elements);
            &&& b.kept.len() <= ws.len()
            &&& ws.len() > 0 && windows > 0 ==> {
                &&& b.kept.len() > 0
                &&& b.kept[0].elements == bound_elements(ws[0].elements, elements).kept
            }
            &&& 0 <= k < b.kept.len() ==> b.kept[k].title == bounded_scalar(ws[k].title)
            &&& window_element_count(ws) <= elements ==> b.kept.len() == (if ws.len() <= windows {
                ws.len() as int
            } else {
                windows
            })
            &&& b.kept.len() < ws.len() ==> b.truncated
        }),
    decreases ws.len(),
{
    if ws.len() > 0 && windows > 0 {
        let first = ws[0];
        let es = bound_elements(first.elements, elements);
        law_the_first_elements_are_rendered(first.elements, elements, 0);
        lemma_element_count_positive(ws.drop_first());
        let b = bound_windows(ws, windows, elements);
        if !es.exhausted {
            law_the_first_windows_are_rendered(
                ws.drop_first(),
                windows - 1,
                es.elements,
                k - 1,
            );
            let rest = bound_windows(ws.drop_first(), windows - 1, es.elements);
            if k > 0 && k < b.kept.len() {
                assert(b.kept[k] == rest.kept[k - 1]);
                assert(ws.drop_first()[k - 1] == ws[k]);
            }
        }
    }
}

/// A percent sign without two hexadecimal digits behind it stands for itself, and so do the
/// two characters behind it.
pub proof fn law_other_percent_signs_stay(a: char, b: char, rest: Seq<char>)
    requires
        hex_value(a) is None || hex_value(b) is None,
    ensures
        percent_decoded(seq!['%', a, b] + rest) == seq!['%', a, b] + percent_decoded(rest),
        percent_decoded(seq!['%']) == seq!['%'],
        percent_decoded(seq!['%', a]) == seq!['%', a],
{
    let all = seq!['%', a, b] + rest;
    assert(all.skip(3) =~= rest);
    assert(all.take(3) =~= seq!['%', a, b]);
}

} // verus!
