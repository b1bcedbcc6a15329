use vstd::prelude::*;

use crate::configuration::Configuration;
use crate::grammar::{is_ident_char, kw_endforeach, kw_endif, spec_has_call_name};
use crate::model::{
    buf_init, is_dedent_line, join_sep, key_max, merge_item, merge_span, pad_to, push_line,
    render_list, rendered_key, scan_alone_string, scan_block, scan_list, scan_string, scan_top, sp,
    spec_format, step_char, strip_last_comma, trim_newlines, BlockState, BufModel, BufScan,
    ErrModel, Item, Scan,
};

verus! {

// ---------------------------------------------------------------------------
// Spacing and padding.
// ---------------------------------------------------------------------------
/// A run of `n` spaces has length `n` and holds only spaces.
pub proof fn lemma_sp_spaces(n: int)
    ensures
        sp(n).len() == if n <= 0 {
            0int
        } else {
            n
        },
        forall|j: int| 0 <= j < sp(n).len() ==> sp(n)[j] == ' ',
    decreases n,
{
    if n > 0 {
        lemma_sp_spaces(n - 1);
    }
}

/// Padding a key to a width appends exactly the missing spaces after the key,
/// and leaves a key that is already wide enough unchanged.
pub proof fn lemma_pad_to_appends_spaces(k: Seq<char>, w: int)
    ensures
        k.len() >= w ==> pad_to(k, w) == k,
        k.len() < w ==> pad_to(k, w) == k + sp(w - k.len()),
    decreases w - k.len(),
{
    if k.len() < w {
        lemma_pad_to_appends_spaces(k.push(' '), w);
        if k.len() + 1 < w {
            lemma_sp_spaces(w - k.len());
            lemma_sp_spaces(w - k.len() - 1);
            assert(k.push(' ') + sp(w - k.len() - 1) =~= k + sp(w - k.len()));
        } else {
            lemma_sp_spaces(1);
            assert(k.push(' ') =~= k + sp(1));
        }
    }
}

// ---------------------------------------------------------------------------
// Style sensitivity.
// ---------------------------------------------------------------------------
/// Toggling align-colon changes only the padding between a key and its colon:
/// a keyless item renders identically, and a keyed item renders as the same
/// key, value and `: ` separator with a run of spaces inserted after the key
/// when alignment is on and the key is narrower than the column.
pub proof fn lemma_align_colon_pads_only(it: Item, w: int, cfg: Configuration)
    requires
        !cfg.align_colon,
    ensures
        ({
            let on = Configuration { align_colon: true, ..cfg };
            let k = rendered_key(it.key, cfg);
            let rest = seq![':', ' '] + trim_newlines(it.val);
            &&& (it.key.len() == 0 ==> merge_item(it, w, on) == merge_item(it, w, cfg))
            &&& (it.key.len() > 0 ==> merge_item(it, w, cfg) == k + rest)
            &&& (it.key.len() > 0 && k.len() >= w ==> merge_item(it, w, on) == k + rest)
            &&& (it.key.len() > 0 && k.len() < w ==> merge_item(it, w, on) == k + sp(w - k.len())
                + rest)
        }),
{
    let on = Configuration { align_colon: true, ..cfg };
    let k = rendered_key(it.key, cfg);
    assert(rendered_key(it.key, on) == k);
    lemma_pad_to_appends_spaces(k, w);
    if it.key.len() > 0 {
        let rest = seq![':', ' '] + trim_newlines(it.val);
        assert(merge_item(it, w, cfg) =~= k + rest);
        if k.len() >= w {
            assert(merge_item(it, w, on) =~= k + rest);
        } else {
            assert(merge_item(it, w, on) =~= k + sp(w - k.len()) + rest);
        }
    }
}

/// Toggling wrap-close-brace on a multiline list with items changes only its
/// tail: with it on, every item keeps its trailing comma and the closing
/// delimiter moves to its own line at the outer indent; with it off, only the
/// last item's trailing comma is dropped and the closing delimiter follows
/// directly. The item texts, their order and count, the header and the
/// separators are the same in both renderings.
pub proof fn lemma_wrap_close_brace_tail_only(
    items: Seq<Item>,
    indent_inner: int,
    indent_outer: int,
    cfg: Configuration,
    open_c: char,
    close_c: char,
    has_name: bool,
)
    requires
        !cfg.wrap_close_brace,
        items.len() > 0,
    ensures
        ({
            let on = Configuration { wrap_close_brace: true, ..cfg };
            let w = key_max(items, cfg);
            let merged = items.map_values(|it: Item| merge_item(it, w, cfg));
            let ibs = if cfg.space_inner_bracket {
                seq![' ']
            } else {
                Seq::<char>::empty()
            };
            let isep = seq!['\n'] + sp(indent_inner);
            let head = if has_name && items[0].key.len() == 0 {
                ibs
            } else {
                isep
            };
            &&& render_list(items, true, indent_inner, indent_outer, on, open_c, close_c, has_name)
                == seq![open_c] + head + join_sep(merged, isep) + (seq!['\n'] + sp(indent_outer))
                + seq![close_c]
            &&& render_list(items, true, indent_inner, indent_outer, cfg, open_c, close_c, has_name)
                == seq![open_c] + head + join_sep(strip_last_comma(merged), isep) + ibs
                + seq![close_c]
        }),
{
    let on = Configuration { wrap_close_brace: true, ..cfg };
    assert(key_max(items, on) == key_max(items, cfg)) by {
        lemma_key_max_ignores_wrap(items, cfg);
    }
    let w = key_max(items, cfg);
    assert(items.map_values(|it: Item| merge_item(it, w, on)) =~= items.map_values(
        |it: Item| merge_item(it, w, cfg),
    ));
}

/// The widest rendered key does not depend on wrap-close-brace.
proof fn lemma_key_max_ignores_wrap(items: Seq<Item>, cfg: Configuration)
    ensures
        key_max(items, Configuration { wrap_close_brace: true, ..cfg }) == key_max(items, cfg),
    decreases items.len(),
{
    if items.len() > 0 {
        lemma_key_max_ignores_wrap(items.drop_last(), cfg);
    }
}

// ---------------------------------------------------------------------------
// Block re-indentation.
// ---------------------------------------------------------------------------
/// Inside an `if` block, an `else` or `elif` body line is emitted at the
/// outer indent, every other body line after the first at the inner indent,
/// and the first body line with no indent at all.
pub proof fn lemma_block_line_indent(
    acc: Seq<char>,
    first_line: bool,
    line: Seq<char>,
    indent_outer: int,
    indent_inner: int,
)
    ensures
        first_line ==> push_line(acc, first_line, line, true, indent_outer, indent_inner) == acc
            + line,
        !first_line && is_dedent_line(line) ==> push_line(
            acc,
            first_line,
            line,
            true,
            indent_outer,
            indent_inner,
        ) == acc + sp(indent_outer) + line,
        !first_line && !is_dedent_line(line) ==> push_line(
            acc,
            first_line,
            line,
            true,
            indent_outer,
            indent_inner,
        ) == acc + sp(indent_inner) + line,
{
}

/// Inside a block body, the other block kind's terminator keyword standing at
/// a token boundary is rejected as an invalid close, whatever the state of
/// the body scanned so far: `endforeach` inside an `if`, `endif` inside a
/// `foreach`.
pub proof fn lemma_stray_other_terminator_in_block(
    s: Seq<char>,
    i: int,
    cfg: Configuration,
    indent_outer: int,
    is_if: bool,
    st: BlockState,
)
    requires
        0 <= i < s.len(),
        s[i] == '\n' || s[i] == ' ',
        st.buf.span == crate::model::other_end_kw(is_if),
    ensures
        scan_block(s, i, cfg, indent_outer, is_if, st) == Err::<Scan, ErrModel>(
            ErrModel::InvalidClose(crate::model::other_end_kw(is_if)),
        ),
{
}

// ---------------------------------------------------------------------------
// Error surfacing for unterminated strings.
// ---------------------------------------------------------------------------
/// A single-line literal that never sees another quote fails: the scan ends
/// at a newline or at the end of input with `NotFindSyntaxClose` on `'`.
proof fn lemma_alone_string_unterminated(s: Seq<char>, i: int, last: char, acc: Seq<char>)
    requires
        0 <= i <= s.len(),
        forall|j: int| i <= j < s.len() ==> (#[trigger] s[j]) != '\'',
    ensures
        scan_alone_string(s, i, last, acc) == Err::<Scan, ErrModel>(
            ErrModel::NotFindClose(seq!['\'']),
        ),
    decreases s.len() - i,
{
    if i < s.len() && s[i] != '\n' {
        lemma_alone_string_unterminated(s, i + 1, s[i], acc.push(s[i]));
    }
}

/// An input that opens a single-quoted string and never closes it is rejected
/// with `NotFindSyntaxClose` on `'`, under every configuration.
pub proof fn lemma_unterminated_string(s: Seq<char>, cfg: Configuration)
    requires
        s.len() >= 1,
        s[0] == '\'',
        forall|j: int| 1 <= j < s.len() ==> (#[trigger] s[j]) != '\'',
    ensures
        spec_format(s, cfg) == Err::<Seq<char>, ErrModel>(ErrModel::NotFindClose(seq!['\''])),
{
    let b0 = buf_init();
    assert(merge_span(b0) == b0);
    if s.len() == 1 {
        assert(scan_string(s, 1) == Err::<Scan, ErrModel>(ErrModel::NotFindClose(seq!['\''])));
    } else if s[1] == '\n' {
        assert(scan_string(s, 1) == Err::<Scan, ErrModel>(ErrModel::NotFindClose(seq!['\''])));
    } else {
        lemma_alone_string_unterminated(s, 2, s[1], seq!['\'', s[1]]);
    }
    assert(step_char(s, 1, '\'', b0, 0, cfg) == Err::<BufScan, ErrModel>(
        ErrModel::NotFindClose(seq!['\'']),
    ));
}

// ---------------------------------------------------------------------------
// Empty-list invariance.
// ---------------------------------------------------------------------------
/// Empty-list invariance: `[]`, `{}` and `()` re-render to themselves under
/// every style configuration; no padding or wrapping option touches an empty
/// delimiter pair.
pub proof fn lemma_empty_list_invariance(cfg: Configuration)
    ensures
        spec_format(seq!['[', ']'], cfg) == Ok::<Seq<char>, ErrModel>(seq!['[', ']']),
        spec_format(seq!['{', '}'], cfg) == Ok::<Seq<char>, ErrModel>(seq!['{', '}']),
        spec_format(seq!['(', ')'], cfg) == Ok::<Seq<char>, ErrModel>(seq!['(', ')']),
{
    lemma_empty_pair(cfg, '[', ']');
    lemma_empty_pair(cfg, '{', '}');
    lemma_empty_pair(cfg, '(', ')');
}

/// One delimiter pair of `lemma_empty_list_invariance`.
proof fn lemma_empty_pair(cfg: Configuration, open_c: char, close_c: char)
    requires
        (open_c == '[' && close_c == ']') || (open_c == '{' && close_c == '}') || (open_c == '('
            && close_c == ')'),
    ensures
        spec_format(seq![open_c, close_c], cfg) == Ok::<Seq<char>, ErrModel>(
            seq![open_c, close_c],
        ),
{
    let s = seq![open_c, close_c];
    let b0 = buf_init();
    let st0 = crate::model::list_init(0);
    // the list closes at its very first character, whatever the options
    assert(merge_span(st0.buf).line =~= Seq::<char>::empty());
    assert(st0.val + merge_span(st0.buf).line =~= Seq::<char>::empty());
    assert(scan_list(s, 1, cfg, 0, open_c, close_c, false, st0) == Ok::<Scan, ErrModel>(
        Scan { pos: 2, text: seq![open_c, close_c] },
    ));
    assert(scan_list(
        s,
        1,
        cfg,
        0,
        open_c,
        close_c,
        spec_has_call_name(Seq::<char>::empty(), cfg),
        st0,
    ) == Ok::<Scan, ErrModel>(Scan { pos: 2, text: seq![open_c, close_c] })) by {
        assert(!crate::grammar::is_call_name_suffix(Seq::<char>::empty()));
    }
    // dispatching the opening delimiter consumes the whole pair
    assert(merge_span(b0) == b0);
    let b1 = BufModel {
        line: Seq::empty(),
        span: seq![open_c, close_c],
        last_identifier: true,
        begin_statement: true,
    };
    let stepped = step_char(s, 1, open_c, b0, 0, cfg);
    assert(stepped == Ok::<BufScan, ErrModel>(BufScan { pos: 2, buf: b1 })) by {
        assert(Seq::<char>::empty() + seq![open_c, close_c] =~= seq![open_c, close_c]);
        assert(stepped is Ok);
        assert(stepped->Ok_0.buf =~= b1);
        assert(BufScan { pos: stepped->Ok_0.pos, buf: stepped->Ok_0.buf } =~= BufScan {
            pos: 2,
            buf: b1,
        });
    }
    // at the end of input the accumulated pair is the whole output
    assert(merge_span(b1).line =~= seq![open_c, close_c]);
    assert(scan_top(s, 2, cfg, b1, Seq::empty()) == Ok::<Seq<char>, ErrModel>(
        seq![open_c, close_c],
    )) by {
        assert(Seq::<char>::empty() + merge_span(b1).line =~= seq![open_c, close_c]);
    }
    assert(scan_top(s, 0, cfg, b0, Seq::empty()) == scan_top(s, 2, cfg, b1, Seq::empty()));
}

// ---------------------------------------------------------------------------
// Stray terminators at the top level.
// ---------------------------------------------------------------------------
/// An input that starts with `endif ` or `endforeach ` is rejected as an
/// invalid close under every configuration, whatever follows the space:
/// there is no open block the terminator could match.
pub proof fn lemma_stray_terminator_at_top(s: Seq<char>, cfg: Configuration)
    ensures
        s.len() >= 6 && s.take(6) == kw_endif() + seq![' '] ==> spec_format(s, cfg)
            == Err::<Seq<char>, ErrModel>(ErrModel::InvalidClose(kw_endif())),
        s.len() >= 11 && s.take(11) == kw_endforeach() + seq![' '] ==> spec_format(s, cfg)
            == Err::<Seq<char>, ErrModel>(ErrModel::InvalidClose(kw_endforeach())),
{
    if s.len() >= 6 && s.take(6) == kw_endif() + seq![' '] {
        let kw = kw_endif();
        assert forall|j: int| 0 <= j < 6 implies s[j] == (kw + seq![' '])[j] by {
            assert(s.take(6)[j] == s[j]);
        }
        assert(s[0] == 'e' && s[1] == 'n' && s[2] == 'd' && s[3] == 'i' && s[4] == 'f' && s[5]
            == ' ');
        lemma_keyword_then_space(s, cfg, kw);
    }
    if s.len() >= 11 && s.take(11) == kw_endforeach() + seq![' '] {
        let kw = kw_endforeach();
        assert forall|j: int| 0 <= j < 11 implies s[j] == (kw + seq![' '])[j] by {
            assert(s.take(11)[j] == s[j]);
        }
        assert(s[0] == 'e' && s[1] == 'n' && s[2] == 'd' && s[3] == 'f' && s[4] == 'o' && s[5]
            == 'r' && s[6] == 'e' && s[7] == 'a' && s[8] == 'c' && s[9] == 'h' && s[10] == ' ');
        lemma_keyword_then_space(s, cfg, kw);
    }
}

/// Scanning a run of identifier characters at the top level only accumulates
/// them into the span.
proof fn lemma_top_ident_run(s: Seq<char>, cfg: Configuration, i: int, stop: int, b: BufModel)
    requires
        0 <= i <= stop <= s.len(),
        forall|j: int| i <= j < stop ==> is_ident_char(#[trigger] s[j]),
        b.last_identifier,
    ensures
        scan_top(s, i, cfg, b, Seq::empty()) == scan_top(
            s,
            stop,
            cfg,
            BufModel {
                line: b.line,
                span: b.span + s.subrange(i, stop),
                last_identifier: true,
                begin_statement: if i < stop {
                    false
                } else {
                    b.begin_statement
                },
            },
            Seq::empty(),
        ),
    decreases stop - i,
{
    if i >= stop {
        assert(b.span + s.subrange(i, stop) =~= b.span);
        let bn = BufModel {
            line: b.line,
            span: b.span + s.subrange(i, stop),
            last_identifier: true,
            begin_statement: b.begin_statement,
        };
        assert(bn =~= b);
    } else {
        let c = s[i];
        let b1 = BufModel {
            line: b.line,
            span: b.span.push(c),
            last_identifier: true,
            begin_statement: false,
        };
        assert(step_char(s, i + 1, c, b, 0, cfg) == Ok::<BufScan, ErrModel>(
            BufScan { pos: i + 1, buf: b1 },
        )) by {
            assert(BufModel { begin_statement: false, span: b.span.push(c), ..b } =~= b1);
        }
        assert(scan_top(s, i, cfg, b, Seq::empty()) == scan_top(s, i + 1, cfg, b1, Seq::empty()));
        lemma_top_ident_run(s, cfg, i + 1, stop, b1);
        assert(b1.span + s.subrange(i + 1, stop) =~= b.span + s.subrange(i, stop));
    }
}

/// A terminator keyword at the very start of the input, followed by a space,
/// is rejected: its characters accumulate into the span and the space then
/// dispatches the keyword.
proof fn lemma_keyword_then_space(s: Seq<char>, cfg: Configuration, kw: Seq<char>)
    requires
        kw == kw_endif() || kw == kw_endforeach(),
        kw.len() + 1 <= s.len(),
        forall|j: int| 0 <= j < kw.len() ==> s[j] == kw[j],
        s[kw.len() as int] == ' ',
    ensures
        spec_format(s, cfg) == Err::<Seq<char>, ErrModel>(ErrModel::InvalidClose(kw)),
{
    let b0 = buf_init();
    let c0 = s[0];
    assert(is_ident_char(c0));
    // the first character opens an identifier token
    let b1 = BufModel {
        line: Seq::empty(),
        span: seq![c0],
        last_identifier: true,
        begin_statement: true,
    };
    assert(step_char(s, 1, c0, b0, 0, cfg) == Ok::<BufScan, ErrModel>(
        BufScan { pos: 1, buf: b1 },
    )) by {
        assert(merge_span(BufModel { last_identifier: true, begin_statement: true, ..b0 })
            =~= BufModel { last_identifier: true, begin_statement: true, ..b0 });
        assert(Seq::<char>::empty().push(c0) =~= seq![c0]);
        let got = step_char(s, 1, c0, b0, 0, cfg);
        assert(got is Ok);
        assert(got->Ok_0.buf =~= b1);
    }
    assert(scan_top(s, 0, cfg, b0, Seq::empty()) == scan_top(s, 1, cfg, b1, Seq::empty()));
    // the remaining keyword characters extend the token
    assert forall|j: int| 1 <= j < kw.len() implies is_ident_char(#[trigger] s[j]) by {
        assert(s[j] == kw[j]);
    }
    lemma_top_ident_run(s, cfg, 1, kw.len() as int, b1);
    let bk = BufModel {
        line: Seq::empty(),
        span: b1.span + s.subrange(1, kw.len() as int),
        last_identifier: true,
        begin_statement: if 1 < kw.len() {
            false
        } else {
            true
        },
    };
    assert(bk.span =~= kw);
    // the space after the keyword rejects it
    assert(scan_top(s, kw.len() as int, cfg, bk, Seq::empty()) == Err::<Seq<char>, ErrModel>(
        ErrModel::InvalidClose(kw),
    ));
}


// ---------------------------------------------------------------------------
// A proved fragment of idempotence.
// ---------------------------------------------------------------------------
/// A comment body with no further newline is copied verbatim up to the end of
/// the input, with trailing spaces trimmed.
proof fn lemma_comment_body_verbatim(s: Seq<char>, i: int)
    requires
        0 <= i <= s.len(),
        forall|j: int| i <= j < s.len() ==> (#[trigger] s[j]) != '\n',
    ensures
        crate::model::comment_body(s, i, s.take(i)) == (Scan {
            pos: s.len() as int,
            text: crate::model::trim_spaces(s),
        }),
    decreases s.len() - i,
{
    if i < s.len() {
        assert(s.take(i).push(s[i]) =~= s.take(i + 1));
        lemma_comment_body_verbatim(s, i + 1);
    } else {
        assert(s.take(i) =~= s);
    }
}

/// Idempotence on comment lines: a line that is already in the comment form
/// the formatter produces — `# ` followed by a payload that starts and ends
/// with a non-space character and contains no newline — is a fixed point of
/// formatting, under every configuration.
pub proof fn lemma_formatted_comment_fixed_point(s: Seq<char>, cfg: Configuration)
    requires
        s.len() >= 3,
        s[0] == '#',
        s[1] == ' ',
        s[2] != ' ',
        forall|j: int| 2 <= j < s.len() ==> (#[trigger] s[j]) != '\n',
        s.last() != ' ',
    ensures
        spec_format(s, cfg) == Ok::<Seq<char>, ErrModel>(s),
{
    let b0 = buf_init();
    // the comment scanner returns the line verbatim
    assert(seq!['#', ' ', s[2]] =~= s.take(3));
    lemma_comment_body_verbatim(s, 3);
    assert(crate::model::trim_spaces(s) == s);
    let sc = crate::model::scan_comment(s, 1);
    assert(sc == (Scan { pos: s.len() as int, text: s }));
    // the scanned comment becomes the whole output
    assert(merge_span(b0) == b0);
    let m2 = merge_span(BufModel { span: s, ..b0 });
    assert(m2.line == s);
    let b2 = BufModel { line: Seq::empty(), ..m2 };
    assert(scan_top(s, 0, cfg, b0, Seq::empty()) == scan_top(
        s,
        s.len() as int,
        cfg,
        b2,
        Seq::empty() + m2.line,
    ));
    assert(merge_span(b2).line =~= Seq::<char>::empty());
    assert(Seq::empty() + m2.line + merge_span(b2).line =~= s);
}


/// Dispatching any character other than an opening bracket reads no style
/// option: strings, operators and token grouping behave the same under every
/// configuration.
proof fn lemma_step_char_ignores_cfg(
    s: Seq<char>,
    i: int,
    c: char,
    b: BufModel,
    indent: int,
    cfg1: Configuration,
    cfg2: Configuration,
)
    requires
        0 <= i <= s.len(),
        c != '(' && c != '[' && c != '{',
    ensures
        step_char(s, i, c, b, indent, cfg1) == step_char(s, i, c, b, indent, cfg2),
{
}

/// For a list whose remaining input holds no nested bracket, toggling
/// align-colon and space-before-colon changes nothing about the scan: the
/// two configurations fail identically, or close the list at the same
/// position having committed exactly the same items in the same order, in
/// the same multiline mode and at the same inner indent — the outputs differ
/// only in how `render_list` pads those items' keys.
#[verifier::rlimit(100)]
#[verifier::spinoff_prover]
pub proof fn lemma_flat_list_alignment_only_pads(
    s: Seq<char>,
    i: int,
    cfg1: Configuration,
    cfg2: Configuration,
    indent_outer: int,
    open_c: char,
    close_c: char,
    has_name: bool,
    st: crate::model::ListState,
)
    requires
        0 <= i <= s.len(),
        cfg2.indent_width == cfg1.indent_width,
        cfg2.space_inner_bracket == cfg1.space_inner_bracket,
        cfg2.wrap_close_brace == cfg1.wrap_close_brace,
        cfg2.nowrap_before_name == cfg1.nowrap_before_name,
        forall|j: int|
            i <= j < s.len() ==> (#[trigger] s[j]) != '(' && s[j] != '[' && s[j] != '{',
    ensures
        ({
            let r1 = scan_list(s, i, cfg1, indent_outer, open_c, close_c, has_name, st);
            let r2 = scan_list(s, i, cfg2, indent_outer, open_c, close_c, has_name, st);
            &&& (r1 is Err <==> r2 is Err)
            &&& (r1 is Err ==> r1 == r2)
            &&& (r1 is Ok ==> r1->Ok_0.pos == r2->Ok_0.pos && exists|items: Seq<Item>, ml: bool, ii: int|
                r1->Ok_0.text == #[trigger] render_list(
                    items,
                    ml,
                    ii,
                    indent_outer,
                    cfg1,
                    open_c,
                    close_c,
                    has_name,
                ) && r2->Ok_0.text == render_list(
                    items,
                    ml,
                    ii,
                    indent_outer,
                    cfg2,
                    open_c,
                    close_c,
                    has_name,
                ))
        }),
    decreases s.len() - i,
{
    if i >= s.len() {
        // both runs fail with the unterminated list
    } else {
        let c = s[i];
        if c == close_c {
            let m = merge_span(st.buf);
            let val1 = st.val + m.line;
            let items1 = if st.key.len() > 0 || val1.len() > 0 {
                st.items.push(Item { key: st.key, val: val1.push(',') })
            } else {
                st.items
            };
            let r1 = scan_list(s, i, cfg1, indent_outer, open_c, close_c, has_name, st);
            let r2 = scan_list(s, i, cfg2, indent_outer, open_c, close_c, has_name, st);
            assert(r1->Ok_0.text == render_list(
                items1,
                st.multiline,
                st.indent_inner,
                indent_outer,
                cfg1,
                open_c,
                close_c,
                has_name,
            ) && r2->Ok_0.text == render_list(
                items1,
                st.multiline,
                st.indent_inner,
                indent_outer,
                cfg2,
                open_c,
                close_c,
                has_name,
            ));
        } else if c == '#' {
            let m = merge_span(st.buf);
            let val1 = st.val + m.line;
            let b1 = BufModel { line: Seq::empty(), ..m };
            let committed = st.key.len() > 0 || val1.len() > 0;
            let items1 = if committed {
                st.items.push(Item { key: st.key, val: val1.push(',') })
            } else if st.newline_comment {
                st.items.push(Item { key: st.key, val: val1 })
            } else {
                st.items
            };
            let key1: Seq<char> = if committed || st.newline_comment {
                Seq::empty()
            } else {
                st.key
            };
            let val2: Seq<char> = if committed || st.newline_comment {
                Seq::empty()
            } else {
                val1
            };
            if items1.len() == 0 {
                lemma_flat_list_alignment_only_pads(
                    s,
                    i + 1,
                    cfg1,
                    cfg2,
                    indent_outer,
                    open_c,
                    close_c,
                    has_name,
                    crate::model::ListState {
                        items: items1,
                        key: key1,
                        val: val2,
                        buf: b1,
                        newline_comment: true,
                        ..st
                    },
                );
            } else {
                let sc = crate::model::scan_comment(s, i + 1);
                if i < sc.pos <= s.len() {
                    let lastv = items1.last().val;
                    let lastv2 = (if lastv.len() > 0 {
                        lastv.push(' ')
                    } else {
                        lastv
                    }) + sc.text;
                    let items2 = items1.update(
                        items1.len() - 1,
                        Item { key: items1.last().key, val: lastv2 },
                    );
                    lemma_flat_list_alignment_only_pads(
                        s,
                        sc.pos,
                        cfg1,
                        cfg2,
                        indent_outer,
                        open_c,
                        close_c,
                        has_name,
                        crate::model::ListState {
                            items: items2,
                            key: key1,
                            val: val2,
                            buf: b1,
                            newline_comment: true,
                            ..st
                        },
                    );
                }
            }
        } else if c == ':' {
            let m = merge_span(st.buf);
            lemma_flat_list_alignment_only_pads(
                s,
                i + 1,
                cfg1,
                cfg2,
                indent_outer,
                open_c,
                close_c,
                has_name,
                crate::model::ListState {
                    key: st.key + m.line,
                    buf: BufModel { line: Seq::empty(), last_identifier: false, ..m },
                    ..st
                },
            );
        } else if c == ',' {
            let m = merge_span(st.buf);
            let val1 = st.val + m.line;
            let committed = st.key.len() > 0 || val1.len() > 0;
            let items1 = if committed {
                st.items.push(Item { key: st.key, val: val1.push(',') })
            } else {
                st.items
            };
            lemma_flat_list_alignment_only_pads(
                s,
                i + 1,
                cfg1,
                cfg2,
                indent_outer,
                open_c,
                close_c,
                has_name,
                crate::model::ListState {
                    items: items1,
                    key: if committed {
                        Seq::empty()
                    } else {
                        st.key
                    },
                    val: if committed {
                        Seq::empty()
                    } else {
                        val1
                    },
                    buf: BufModel { line: Seq::empty(), last_identifier: false, ..m },
                    newline_comment: false,
                    ..st
                },
            );
        } else if c == '\n' {
            assert(indent_outer + cfg1.indent_width == indent_outer + cfg2.indent_width);
            lemma_flat_list_alignment_only_pads(
                s,
                i + 1,
                cfg1,
                cfg2,
                indent_outer,
                open_c,
                close_c,
                has_name,
                crate::model::ListState {
                    buf: merge_span(st.buf),
                    multiline: true,
                    newline_comment: true,
                    indent_inner: indent_outer + cfg1.indent_width,
                    ..st
                },
            );
        } else if c == ' ' {
            lemma_flat_list_alignment_only_pads(
                s,
                i + 1,
                cfg1,
                cfg2,
                indent_outer,
                open_c,
                close_c,
                has_name,
                crate::model::ListState { buf: merge_span(st.buf), ..st },
            );
        } else {
            lemma_step_char_ignores_cfg(s, i + 1, c, st.buf, st.indent_inner, cfg1, cfg2);
            match step_char(s, i + 1, c, st.buf, st.indent_inner, cfg1) {
                Err(_) => {},
                Ok(bs) => {
                    if i < bs.pos <= s.len() {
                        lemma_flat_list_alignment_only_pads(
                            s,
                            bs.pos,
                            cfg1,
                            cfg2,
                            indent_outer,
                            open_c,
                            close_c,
                            has_name,
                            crate::model::ListState { buf: bs.buf, ..st },
                        );
                    }
                },
            }
        }
    }
}

} // verus!
