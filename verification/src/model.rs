use vstd::prelude::*;

use crate::configuration::Configuration;
use crate::grammar::{
    ends_with, is_ident_char, is_ws_char, kw_elif, kw_else, kw_endforeach, kw_endif, kw_foreach,
    kw_if, spec_has_call_name,
};

verus! {

// ---------------------------------------------------------------------------
// The token accumulator.
// ---------------------------------------------------------------------------
/// Model of the two-stage accumulator: the pending token (`span`), the
/// committed logical line (`line`), and the two lookback flags used for
/// spacing and unary-operator disambiguation.
#[verifier::ext_equal]
pub struct BufModel {
    pub line: Seq<char>,
    pub span: Seq<char>,
    pub last_identifier: bool,
    pub begin_statement: bool,
}

/// A fresh accumulator: empty, not after an identifier, at statement start.
pub open spec fn buf_init() -> BufModel {
    BufModel {
        line: Seq::empty(),
        span: Seq::empty(),
        last_identifier: false,
        begin_statement: true,
    }
}

/// Flush the pending span into the line, inserting exactly one separating
/// space when the line is not empty. Collapses any run of source whitespace
/// into the single separator applied here.
pub open spec fn merge_span(b: BufModel) -> BufModel {
    if b.span.len() == 0 {
        b
    } else if b.line.len() == 0 {
        BufModel { line: b.span, span: Seq::empty(), ..b }
    } else {
        BufModel { line: b.line + seq![' '] + b.span, span: Seq::empty(), ..b }
    }
}

/// Turn the committed line into the pending span (used when an argument list
/// or subscript attaches to everything accumulated so far). The previous
/// span is discarded; callers always merge first, so it is empty.
pub open spec fn move_line(b: BufModel) -> BufModel {
    BufModel { line: Seq::empty(), span: b.line, ..b }
}

// ---------------------------------------------------------------------------
// Results and errors.
// ---------------------------------------------------------------------------
/// Errors of the formatter: a closing delimiter or keyword with no open
/// construct to match it; end of input while a construct was still open; and
/// an internal emission failure, which the executable formatter is proved
/// never to produce.
#[verifier::ext_equal]
pub enum ErrModel {
    InvalidClose(Seq<char>),
    NotFindClose(Seq<char>),
    Emit,
}

/// Result of scanning one construct: the position just past it and the text
/// it renders to.
#[verifier::ext_equal]
pub struct Scan {
    pub pos: int,
    pub text: Seq<char>,
}

/// Result of dispatching one character: the position just past whatever it
/// consumed and the updated accumulator.
#[verifier::ext_equal]
pub struct BufScan {
    pub pos: int,
    pub buf: BufModel,
}

// ---------------------------------------------------------------------------
// Small text helpers.
// ---------------------------------------------------------------------------
/// Drop trailing spaces.
pub open spec fn trim_spaces(s: Seq<char>) -> Seq<char>
    decreases s.len(),
{
    if s.len() > 0 && s.last() == ' ' {
        trim_spaces(s.drop_last())
    } else {
        s
    }
}

/// Drop trailing newlines.
pub open spec fn trim_newlines(s: Seq<char>) -> Seq<char>
    decreases s.len(),
{
    if s.len() > 0 && s.last() == '\n' {
        trim_newlines(s.drop_last())
    } else {
        s
    }
}

/// Drop leading whitespace.
pub open spec fn trim_front(s: Seq<char>) -> Seq<char>
    decreases s.len(),
{
    if s.len() > 0 && is_ws_char(s.first()) {
        trim_front(s.drop_first())
    } else {
        s
    }
}

/// Drop trailing whitespace.
pub open spec fn trim_back(s: Seq<char>) -> Seq<char>
    decreases s.len(),
{
    if s.len() > 0 && is_ws_char(s.last()) {
        trim_back(s.drop_last())
    } else {
        s
    }
}

/// Whitespace-trimmed copy of a line.
pub open spec fn trim_ws(s: Seq<char>) -> Seq<char> {
    trim_back(trim_front(s))
}

/// `n` spaces.
pub open spec fn sp(n: int) -> Seq<char>
    decreases n,
{
    if n <= 0 {
        Seq::empty()
    } else {
        sp(n - 1).push(' ')
    }
}

/// Pad `k` with spaces on the right up to width `w`.
pub open spec fn pad_to(k: Seq<char>, w: int) -> Seq<char>
    decreases w - k.len(),
{
    if k.len() < w {
        pad_to(k.push(' '), w)
    } else {
        k
    }
}

/// Join with a separator between consecutive elements.
pub open spec fn join_sep(xs: Seq<Seq<char>>, sep: Seq<char>) -> Seq<char>
    decreases xs.len(),
{
    if xs.len() == 0 {
        Seq::empty()
    } else if xs.len() == 1 {
        xs[0]
    } else {
        join_sep(xs.drop_last(), sep) + sep + xs.last()
    }
}

/// A body line of an `if` block that must sit at the outer indent: `else`,
/// or `elif ` followed by a condition.
pub open spec fn is_dedent_line(line: Seq<char>) -> bool {
    trim_ws(line) == kw_else() || (trim_ws(line).len() >= 5 && trim_ws(line).take(5) == kw_elif()
        + seq![' '])
}

// ---------------------------------------------------------------------------
// Comments.
// ---------------------------------------------------------------------------
/// Body of a comment after its first payload character: copy up to the end
/// of the line or input, trimming trailing spaces; a terminating newline is
/// kept.
pub open spec fn comment_body(s: Seq<char>, i: int, acc: Seq<char>) -> Scan
    decreases s.len() - i,
    when 0 <= i <= s.len()
{
    if i >= s.len() {
        Scan { pos: i, text: trim_spaces(acc) }
    } else if s[i] == '\n' {
        Scan { pos: i + 1, text: trim_spaces(acc) + seq!['\n'] }
    } else {
        comment_body(s, i + 1, acc.push(s[i]))
    }
}

/// A comment, entered just after its `#`: one run of spaces after the `#` is
/// discarded, the remainder is re-emitted as `# ` plus the payload with
/// trailing spaces trimmed. A comment with no payload is re-emitted as `#`.
pub open spec fn scan_comment(s: Seq<char>, i: int) -> Scan
    decreases s.len() - i,
    when 0 <= i <= s.len()
{
    if i >= s.len() {
        Scan { pos: i, text: seq!['#'] }
    } else if s[i] == '\n' {
        Scan { pos: i + 1, text: seq!['#', '\n'] }
    } else if s[i] == ' ' {
        scan_comment(s, i + 1)
    } else {
        comment_body(s, i + 1, seq!['#', ' ', s[i]])
    }
}

// ---------------------------------------------------------------------------
// String literals.
// ---------------------------------------------------------------------------
/// Single-line literal, after its opening quote and first content character:
/// content (including `\'` escapes) is copied verbatim until the first quote
/// not preceded by `\`; a newline or end of input first is an error.
pub open spec fn scan_alone_string(s: Seq<char>, i: int, last: char, acc: Seq<char>) -> Result<
    Scan,
    ErrModel,
>
    decreases s.len() - i,
    when 0 <= i <= s.len()
{
    if i >= s.len() || s[i] == '\n' {
        Err(ErrModel::NotFindClose(seq!['\'']))
    } else if s[i] == '\'' && last != '\\' {
        Ok(Scan { pos: i + 1, text: acc.push('\'') })
    } else {
        scan_alone_string(s, i + 1, s[i], acc.push(s[i]))
    }
}

/// `qc` pending quotes (0, 1 or 2), re-emitted when the run is broken.
pub open spec fn pending_quotes(qc: int) -> Seq<char> {
    if qc <= 0 {
        Seq::empty()
    } else if qc == 1 {
        seq!['\'']
    } else {
        seq!['\'', '\'']
    }
}

/// Triple-quoted literal, after its opening quotes: content is copied
/// byte-for-byte until an unescaped run of three quotes; end of input first
/// is an error. `qc` counts the quotes of the current unescaped run.
pub open spec fn scan_multi_string(s: Seq<char>, i: int, last: char, qc: int, acc: Seq<char>) -> Result<
    Scan,
    ErrModel,
>
    decreases s.len() - i,
    when 0 <= i <= s.len()
{
    if i >= s.len() {
        Err(ErrModel::NotFindClose(seq!['\'', '\'', '\'']))
    } else if s[i] == '\'' && last != '\\' {
        if qc == 2 {
            Ok(Scan { pos: i + 1, text: acc + seq!['\'', '\'', '\''] })
        } else {
            scan_multi_string(s, i + 1, '\'', qc + 1, acc)
        }
    } else {
        scan_multi_string(s, i + 1, s[i], 0, acc + pending_quotes(qc) + seq![s[i]])
    }
}

/// A string literal, entered just after its opening quote. Two consecutive
/// quotes with no third are the empty literal; three open a triple-quoted
/// literal; anything else opens a single-line literal. A newline or end of
/// input directly after the opening quote is an error.
pub open spec fn scan_string(s: Seq<char>, i: int) -> Result<Scan, ErrModel>
    decreases s.len() - i, 1int,
    when 0 <= i <= s.len()
{
    if i >= s.len() || s[i] == '\n' {
        Err(ErrModel::NotFindClose(seq!['\'']))
    } else if s[i] == '\'' {
        if i + 1 < s.len() && s[i + 1] == '\'' {
            scan_multi_string(s, i + 2, '\'', 0, seq!['\'', '\'', '\''])
        } else {
            Ok(Scan { pos: i + 1, text: seq!['\'', '\''] })
        }
    } else {
        scan_alone_string(s, i + 1, s[i], seq!['\'', s[i]])
    }
}

// ---------------------------------------------------------------------------
// List items and rendering.
// ---------------------------------------------------------------------------
/// One committed list item: an optional key and a value; the value of every
/// item committed by a comma or a close carries a synthetic trailing comma.
/// A comment-only line is an item with empty key and only comment text.
#[verifier::ext_equal]
pub struct Item {
    pub key: Seq<char>,
    pub val: Seq<char>,
}

/// The key as rendered: with a synthetic trailing space when
/// space-before-colon is enabled and the key is not empty.
pub open spec fn rendered_key(k: Seq<char>, cfg: Configuration) -> Seq<char> {
    if cfg.space_before_colon && k.len() > 0 {
        k.push(' ')
    } else {
        k
    }
}

/// Width of the widest rendered key.
pub open spec fn key_max(items: Seq<Item>, cfg: Configuration) -> int
    decreases items.len(),
{
    if items.len() == 0 {
        0
    } else {
        let m = key_max(items.drop_last(), cfg);
        let k = rendered_key(items.last().key, cfg).len() as int;
        if k > m {
            k
        } else {
            m
        }
    }
}

/// One item as rendered: a keyless item is its value; otherwise the rendered
/// key — padded to the common width when align-colon is enabled — then `: `
/// and the value. Trailing newlines of the value are dropped.
pub open spec fn merge_item(it: Item, w: int, cfg: Configuration) -> Seq<char> {
    if it.key.len() == 0 {
        trim_newlines(it.val)
    } else {
        let k = rendered_key(it.key, cfg);
        (if cfg.align_colon {
            pad_to(k, w)
        } else {
            k
        }) + seq![':', ' '] + trim_newlines(it.val)
    }
}

/// Drop the trailing comma of the last rendered item, if any.
pub open spec fn strip_last_comma(xs: Seq<Seq<char>>) -> Seq<Seq<char>> {
    if xs.len() > 0 && xs.last().len() > 0 && xs.last().last() == ',' {
        xs.update(xs.len() - 1, xs.last().drop_last())
    } else {
        xs
    }
}

/// Render a closed list. An empty list is the bare delimiter pair whatever
/// the style options. Single-line lists join items with one space and drop
/// the last trailing comma; multiline lists put one item per line at the
/// inner indent, and either keep every trailing comma and wrap the closing
/// delimiter to the outer indent (wrap-close-brace) or drop the last comma
/// and close on the last line. With a recognized call name and
/// nowrap-before-name, a keyless first item stays on the header line.
pub open spec fn render_list(
    items: Seq<Item>,
    multiline: bool,
    indent_inner: int,
    indent_outer: int,
    cfg: Configuration,
    open_c: char,
    close_c: char,
    has_name: bool,
) -> Seq<char> {
    if items.len() == 0 {
        seq![open_c, close_c]
    } else {
        let w = key_max(items, cfg);
        let merged = items.map_values(|it: Item| merge_item(it, w, cfg));
        let merged2 = if !multiline || !cfg.wrap_close_brace {
            strip_last_comma(merged)
        } else {
            merged
        };
        let ibs = if cfg.space_inner_bracket {
            seq![' ']
        } else {
            Seq::<char>::empty()
        };
        let isep = seq!['\n'] + sp(indent_inner);
        let head = if multiline && has_name && items[0].key.len() == 0 {
            ibs
        } else if multiline {
            isep
        } else {
            ibs
        };
        let foot = if multiline && cfg.wrap_close_brace {
            seq!['\n'] + sp(indent_outer)
        } else {
            ibs
        };
        let body = join_sep(
            merged2,
            if multiline {
                isep
            } else {
                seq![' ']
            },
        );
        seq![open_c] + head + body + foot + seq![close_c]
    }
}

// ---------------------------------------------------------------------------
// List scanning.
// ---------------------------------------------------------------------------
/// Scanning state of one list: committed items, the key and value of the
/// item in progress, the item's own accumulator, whether a newline latched
/// multiline rendering, whether the previous action was a standalone
/// comment, and the inner indent fixed by the first newline.
#[verifier::ext_equal]
pub struct ListState {
    pub items: Seq<Item>,
    pub key: Seq<char>,
    pub val: Seq<char>,
    pub buf: BufModel,
    pub multiline: bool,
    pub newline_comment: bool,
    pub indent_inner: int,
}

/// The state on entering a list.
pub open spec fn list_init(indent_outer: int) -> ListState {
    ListState {
        items: Seq::empty(),
        key: Seq::empty(),
        val: Seq::empty(),
        buf: buf_init(),
        multiline: false,
        newline_comment: false,
        indent_inner: indent_outer,
    }
}

/// Scan a comma-separated list until `close_c`. See `render_list` for the
/// final rendering; an item that is still empty at a comma or at the close
/// is dropped. Comments attach to the item just committed, or stand as
/// items of their own after a newline.
pub open spec fn scan_list(
    s: Seq<char>,
    i: int,
    cfg: Configuration,
    indent_outer: int,
    open_c: char,
    close_c: char,
    has_name: bool,
    st: ListState,
) -> Result<Scan, ErrModel>
    decreases s.len() - i, 0int,
    when 0 <= i <= s.len()
{
    if i >= s.len() {
        Err(ErrModel::NotFindClose(seq![open_c]))
    } else {
        let c = s[i];
        if c == close_c {
            let m = merge_span(st.buf);
            let val1 = st.val + m.line;
            let items1 = if st.key.len() > 0 || val1.len() > 0 {
                st.items.push(Item { key: st.key, val: val1.push(',') })
            } else {
                st.items
            };
            Ok(
                Scan {
                    pos: i + 1,
                    text: render_list(
                        items1,
                        st.multiline,
                        st.indent_inner,
                        indent_outer,
                        cfg,
                        open_c,
                        close_c,
                        has_name,
                    ),
                },
            )
        } else if c == '#' {
            let m = merge_span(st.buf);
            let val1 = st.val + m.line;
            let b1 = BufModel { line: Seq::empty(), ..m };
            let committed = st.key.len() > 0 || val1.len() > 0;
            let items1 = if committed {
                st.items.push(Item { key: st.key, val: val1.push(',') })
            } else if st.newline_comment {
                st.items.push(Item { key: st.key, val: val1 })
            } else {
                st.items
            };
            let key1: Seq<char> = if committed || st.newline_comment {
                Seq::empty()
            } else {
                st.key
            };
            let val2: Seq<char> = if committed || st.newline_comment {
                Seq::empty()
            } else {
                val1
            };
            if items1.len() == 0 {
                // nothing to attach the comment to: the `#` itself is dropped
                // and its text is scanned as ordinary characters
                scan_list(
                    s,
                    i + 1,
                    cfg,
                    indent_outer,
                    open_c,
                    close_c,
                    has_name,
                    ListState {
                        items: items1,
                        key: key1,
                        val: val2,
                        buf: b1,
                        newline_comment: true,
                        ..st
                    },
                )
            } else {
                let sc = scan_comment(s, i + 1);
                if !(i < sc.pos <= s.len()) {
                    Err(ErrModel::Emit)
                } else {
                    let lastv = items1.last().val;
                    let lastv2 = (if lastv.len() > 0 {
                        lastv.push(' ')
                    } else {
                        lastv
                    }) + sc.text;
                    let items2 = items1.update(
                        items1.len() - 1,
                        Item { key: items1.last().key, val: lastv2 },
                    );
                    scan_list(
                        s,
                        sc.pos,
                        cfg,
                        indent_outer,
                        open_c,
                        close_c,
                        has_name,
                        ListState {
                            items: items2,
                            key: key1,
                            val: val2,
                            buf: b1,
                            newline_comment: true,
                            ..st
                        },
                    )
                }
            }
        } else if c == ':' {
            let m = merge_span(st.buf);
            scan_list(
                s,
                i + 1,
                cfg,
                indent_outer,
                open_c,
                close_c,
                has_name,
                ListState {
                    key: st.key + m.line,
                    buf: BufModel { line: Seq::empty(), last_identifier: false, ..m },
                    ..st
                },
            )
        } else if c == ',' {
            let m = merge_span(st.buf);
            let val1 = st.val + m.line;
            let committed = st.key.len() > 0 || val1.len() > 0;
            let items1 = if committed {
                st.items.push(Item { key: st.key, val: val1.push(',') })
            } else {
                st.items
            };
            scan_list(
                s,
                i + 1,
                cfg,
                indent_outer,
                open_c,
                close_c,
                has_name,
                ListState {
                    items: items1,
                    key: if committed {
                        Seq::empty()
                    } else {
                        st.key
                    },
                    val: if committed {
                        Seq::empty()
                    } else {
                        val1
                    },
                    buf: BufModel { line: Seq::empty(), last_identifier: false, ..m },
                    newline_comment: false,
                    ..st
                },
            )
        } else if c == '\n' {
            scan_list(
                s,
                i + 1,
                cfg,
                indent_outer,
                open_c,
                close_c,
                has_name,
                ListState {
                    buf: merge_span(st.buf),
                    multiline: true,
                    newline_comment: true,
                    indent_inner: indent_outer + cfg.indent_width,
                    ..st
                },
            )
        } else if c == ' ' {
            scan_list(
                s,
                i + 1,
                cfg,
                indent_outer,
                open_c,
                close_c,
                has_name,
                ListState { buf: merge_span(st.buf), ..st },
            )
        } else {
            match step_char(s, i + 1, c, st.buf, st.indent_inner, cfg) {
                Err(e) => Err(e),
                Ok(bs) => {
                    if !(i < bs.pos <= s.len()) {
                        Err(ErrModel::Emit)
                    } else {
                        scan_list(
                            s,
                            bs.pos,
                            cfg,
                            indent_outer,
                            open_c,
                            close_c,
                            has_name,
                            ListState { buf: bs.buf, ..st },
                        )
                    }
                },
            }
        }
    }
}

// ---------------------------------------------------------------------------
// Character dispatch.
// ---------------------------------------------------------------------------
/// Dispatch one ordinary character `c`, already consumed at position `i - 1`:
/// opens strings and lists, rejects stray closers, disambiguates unary from
/// binary `+`/`-`, and groups characters into tokens by their class.
pub open spec fn step_char(
    s: Seq<char>,
    i: int,
    c: char,
    b: BufModel,
    indent: int,
    cfg: Configuration,
) -> Result<BufScan, ErrModel>
    decreases s.len() - i, 1int,
    when 0 <= i <= s.len()
{
    if c == '\'' {
        let m = merge_span(b);
        match scan_string(s, i) {
            Err(e) => Err(e),
            Ok(sc) => {
                let m2 = merge_span(BufModel { span: sc.text, ..m });
                Ok(BufScan { pos: sc.pos, buf: BufModel { last_identifier: true, ..m2 } })
            },
        }
    } else if c == '(' {
        let m = move_line(merge_span(b));
        match scan_list(
            s,
            i,
            cfg,
            indent,
            '(',
            ')',
            spec_has_call_name(m.span, cfg),
            list_init(indent),
        ) {
            Err(e) => Err(e),
            Ok(sc) => Ok(
                BufScan {
                    pos: sc.pos,
                    buf: BufModel { span: m.span + sc.text, last_identifier: true, ..m },
                },
            ),
        }
    } else if c == '[' {
        let m0 = merge_span(b);
        let m = if b.last_identifier && !ends_with(m0.line, seq![' ', 'i', 'n']) {
            move_line(m0)
        } else {
            m0
        };
        match scan_list(s, i, cfg, indent, '[', ']', false, list_init(indent)) {
            Err(e) => Err(e),
            Ok(sc) => Ok(
                BufScan {
                    pos: sc.pos,
                    buf: BufModel { span: m.span + sc.text, last_identifier: true, ..m },
                },
            ),
        }
    } else if c == '{' {
        let m = merge_span(b);
        match scan_list(s, i, cfg, indent, '{', '}', false, list_init(indent)) {
            Err(e) => Err(e),
            Ok(sc) => Ok(
                BufScan {
                    pos: sc.pos,
                    buf: BufModel { span: m.span + sc.text, last_identifier: true, ..m },
                },
            ),
        }
    } else if c == ')' || c == ']' || c == '}' {
        Err(ErrModel::InvalidClose(seq![c]))
    } else if c == '+' || c == '-' {
        let li = (b.span.len() == 0 || !b.last_identifier) && b.begin_statement;
        let m = merge_span(BufModel { last_identifier: li, begin_statement: false, ..b });
        Ok(BufScan { pos: i, buf: BufModel { span: m.span.push(c), ..m } })
    } else if c == '*' || c == '/' || c == '%' {
        let m = merge_span(BufModel { last_identifier: false, begin_statement: false, ..b });
        Ok(BufScan { pos: i, buf: BufModel { span: m.span.push(c), ..m } })
    } else if b.last_identifier != is_ident_char(c) {
        let li = is_ident_char(c);
        let m = merge_span(
            BufModel {
                last_identifier: li,
                begin_statement: if !li {
                    true
                } else {
                    b.begin_statement
                },
                ..b
            },
        );
        Ok(BufScan { pos: i, buf: BufModel { span: m.span.push(c), ..m } })
    } else {
        Ok(BufScan { pos: i, buf: BufModel { begin_statement: false, span: b.span.push(c), ..b } })
    }
}

// ---------------------------------------------------------------------------
// Blocks.
// ---------------------------------------------------------------------------
/// Scanning state of a block body.
#[verifier::ext_equal]
pub struct BlockState {
    pub buf: BufModel,
    pub first_line: bool,
    pub acc: Seq<char>,
}

/// On entry a block separates its header from its body with one space.
pub open spec fn block_init() -> BlockState {
    BlockState { buf: buf_init(), first_line: true, acc: seq![' '] }
}

/// The opening keyword of a block kind.
pub open spec fn open_kw(is_if: bool) -> Seq<char> {
    if is_if {
        kw_if()
    } else {
        kw_foreach()
    }
}

/// The terminator keyword of a block kind.
pub open spec fn end_kw(is_if: bool) -> Seq<char> {
    if is_if {
        kw_endif()
    } else {
        kw_endforeach()
    }
}

/// The terminator keyword of the other block kind, which is an error here.
pub open spec fn other_end_kw(is_if: bool) -> Seq<char> {
    if is_if {
        kw_endforeach()
    } else {
        kw_endif()
    }
}

/// Emit one body line: the first body line continues directly after the
/// header; every other line gets the inner indent, except `else`/`elif`
/// lines of an `if` block, which get the outer indent.
pub open spec fn push_line(
    acc: Seq<char>,
    first_line: bool,
    line: Seq<char>,
    is_if: bool,
    indent_outer: int,
    indent_inner: int,
) -> Seq<char> {
    if first_line {
        acc + line
    } else if is_if && is_dedent_line(line) {
        acc + sp(indent_outer) + line
    } else {
        acc + sp(indent_inner) + line
    }
}

/// Scan a block body until its own terminator keyword stands at a token
/// boundary (space, newline, or end of input). Nested `if`/`foreach`
/// headers recurse with the inner indent; the wrong terminator is an error;
/// end of input without the terminator is an error.
pub open spec fn scan_block(
    s: Seq<char>,
    i: int,
    cfg: Configuration,
    indent_outer: int,
    is_if: bool,
    st: BlockState,
) -> Result<Scan, ErrModel>
    decreases s.len() - i, 0int,
    when 0 <= i <= s.len()
{
    let indent_inner = indent_outer + cfg.indent_width;
    if i >= s.len() {
        if st.buf.span == end_kw(is_if) {
            Ok(Scan { pos: i, text: st.acc + sp(indent_outer) + end_kw(is_if) })
        } else {
            Err(ErrModel::NotFindClose(open_kw(is_if)))
        }
    } else {
        let c = s[i];
        if c == '#' {
            let m = merge_span(st.buf);
            let sc = scan_comment(s, i + 1);
            if !(i < sc.pos <= s.len()) {
                Err(ErrModel::Emit)
            } else {
                let m2 = merge_span(BufModel { span: sc.text, ..m });
                let acc2 = push_line(st.acc, st.first_line, m2.line, is_if, indent_outer, indent_inner);
                scan_block(
                    s,
                    sc.pos,
                    cfg,
                    indent_outer,
                    is_if,
                    BlockState {
                        buf: BufModel { line: Seq::empty(), ..m2 },
                        first_line: false,
                        acc: acc2,
                    },
                )
            }
        } else if c == '\n' || c == ' ' {
            if st.buf.span == kw_foreach() || st.buf.span == kw_if() {
                let nested_if = st.buf.span == kw_if();
                match scan_block(s, i + 1, cfg, indent_inner, nested_if, block_init()) {
                    Err(e) => Err(e),
                    Ok(sc) => {
                        if !(i < sc.pos <= s.len()) {
                            Err(ErrModel::Emit)
                        } else {
                            let m = merge_span(
                                BufModel { span: st.buf.span + sc.text, ..st.buf },
                            );
                            let acc2 = push_line(
                                st.acc,
                                st.first_line,
                                m.line,
                                is_if,
                                indent_outer,
                                indent_inner,
                            );
                            scan_block(
                                s,
                                sc.pos,
                                cfg,
                                indent_outer,
                                is_if,
                                BlockState {
                                    buf: BufModel { line: Seq::empty(), ..m },
                                    first_line: false,
                                    acc: if c == '\n' {
                                        acc2 + seq!['\n']
                                    } else {
                                        acc2
                                    },
                                },
                            )
                        }
                    },
                }
            } else if st.buf.span == other_end_kw(is_if) {
                Err(ErrModel::InvalidClose(st.buf.span))
            } else if st.buf.span == end_kw(is_if) {
                Ok(
                    Scan {
                        pos: i + 1,
                        text: st.acc + sp(indent_outer) + end_kw(is_if) + if c == '\n' {
                            seq!['\n']
                        } else {
                            Seq::<char>::empty()
                        },
                    },
                )
            } else if c == '\n' {
                let m = merge_span(st.buf);
                let acc2 = push_line(st.acc, st.first_line, m.line, is_if, indent_outer, indent_inner);
                scan_block(
                    s,
                    i + 1,
                    cfg,
                    indent_outer,
                    is_if,
                    BlockState {
                        buf: BufModel { line: Seq::empty(), ..m },
                        first_line: false,
                        acc: acc2 + seq!['\n'],
                    },
                )
            } else {
                scan_block(
                    s,
                    i + 1,
                    cfg,
                    indent_outer,
                    is_if,
                    BlockState { buf: merge_span(st.buf), ..st },
                )
            }
        } else if !is_if && c == ',' {
            let m = merge_span(
                BufModel {
                    span: st.buf.span.push(','),
                    last_identifier: false,
                    begin_statement: true,
                    ..st.buf
                },
            );
            scan_block(s, i + 1, cfg, indent_outer, is_if, BlockState { buf: m, ..st })
        } else {
            match step_char(s, i + 1, c, st.buf, indent_inner, cfg) {
                Err(e) => Err(e),
                Ok(bs) => {
                    if !(i < bs.pos <= s.len()) {
                        Err(ErrModel::Emit)
                    } else {
                        scan_block(
                            s,
                            bs.pos,
                            cfg,
                            indent_outer,
                            is_if,
                            BlockState { buf: bs.buf, ..st },
                        )
                    }
                },
            }
        }
    }
}

// ---------------------------------------------------------------------------
// The top level.
// ---------------------------------------------------------------------------
/// Scan a whole source text. Newlines flush the logical line; `if ` and
/// `foreach ` open blocks; a stray block keyword before a space is an error;
/// everything else goes through `step_char`.
pub open spec fn scan_top(
    s: Seq<char>,
    i: int,
    cfg: Configuration,
    buf: BufModel,
    acc: Seq<char>,
) -> Result<Seq<char>, ErrModel>
    decreases s.len() - i,
    when 0 <= i <= s.len()
{
    if i >= s.len() {
        Ok(acc + merge_span(buf).line)
    } else {
        let c = s[i];
        if c == '#' {
            let m = merge_span(buf);
            let sc = scan_comment(s, i + 1);
            if !(i < sc.pos <= s.len()) {
                Err(ErrModel::Emit)
            } else {
                let m2 = merge_span(BufModel { span: sc.text, ..m });
                scan_top(s, sc.pos, cfg, BufModel { line: Seq::empty(), ..m2 }, acc + m2.line)
            }
        } else if c == '\n' {
            let m = merge_span(buf);
            scan_top(
                s,
                i + 1,
                cfg,
                BufModel { line: Seq::empty(), ..m },
                acc + m.line + seq!['\n'],
            )
        } else if c == ' ' {
            if buf.span == kw_if() || buf.span == kw_foreach() {
                let nested_if = buf.span == kw_if();
                match scan_block(s, i + 1, cfg, 0, nested_if, block_init()) {
                    Err(e) => Err(e),
                    Ok(sc) => {
                        if !(i < sc.pos <= s.len()) {
                            Err(ErrModel::Emit)
                        } else {
                            let m = merge_span(BufModel { span: buf.span + sc.text, ..buf });
                            scan_top(
                                s,
                                sc.pos,
                                cfg,
                                BufModel { line: Seq::empty(), ..m },
                                acc + m.line,
                            )
                        }
                    },
                }
            } else if buf.span == kw_elif() || buf.span == kw_else() || buf.span == kw_endif()
                || buf.span == kw_endforeach() {
                Err(ErrModel::InvalidClose(buf.span))
            } else {
                scan_top(s, i + 1, cfg, merge_span(buf), acc)
            }
        } else {
            match step_char(s, i + 1, c, buf, 0, cfg) {
                Err(e) => Err(e),
                Ok(bs) => {
                    if !(i < bs.pos <= s.len()) {
                        Err(ErrModel::Emit)
                    } else {
                        scan_top(s, bs.pos, cfg, bs.buf, acc)
                    }
                },
            }
        }
    }
}

/// The whole transformation: what formatting `s` under `cfg` returns.
pub open spec fn spec_format(s: Seq<char>, cfg: Configuration) -> Result<Seq<char>, ErrModel> {
    scan_top(s, 0, cfg, buf_init(), Seq::empty())
}

/// Machine limit: indents are at most 255 per nesting level and nesting is
/// at most the input length, so this keeps every indent computation inside
/// `usize`.
pub open spec fn len_ok(s: Seq<char>) -> bool {
    s.len() * 255 + 255 <= usize::MAX
}

} // verus!
