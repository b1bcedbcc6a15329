use vstd::prelude::*;

use crate::buffer::Buffer;
use crate::configuration::Configuration;
use crate::grammar::{has_call_name, is_identifier, vec_eq};
use crate::model::{
    block_init, buf_init, comment_body, end_kw, len_ok, list_init, open_kw, other_end_kw,
    scan_alone_string, scan_block, scan_comment, scan_list, scan_multi_string, scan_string,
    scan_top, sp, spec_format, step_char, BlockState, BufScan, ErrModel, ListState, Scan,
};
use crate::render::{items_view, lemma_items_view_push, render_list_exec, ListItem};
use crate::text::{extend_from, string_of, trim_trailing_spaces};

verus! {

/// The errors of the formatter, each carrying the offending delimiter or
/// keyword. `InvalidSyntaxClose`: a closer appeared with no matching open
/// construct. `NotFindSyntaxClose`: the input ended while a string, list or
/// block was still open. `FmtError`: an internal emission failure; the
/// formatter is proved never to return it.
#[derive(Debug, Clone, PartialEq, Eq)]
pub enum ParseError {
    InvalidSyntaxClose(String),
    NotFindSyntaxClose(String),
    FmtError,
}

impl View for ParseError {
    type V = ErrModel;

    open spec fn view(&self) -> ErrModel {
        match self {
            ParseError::InvalidSyntaxClose(t) => ErrModel::InvalidClose(t@),
            ParseError::NotFindSyntaxClose(t) => ErrModel::NotFindClose(t@),
            ParseError::FmtError => ErrModel::Emit,
        }
    }
}

impl ParseError {
    /// The error's kind and offending token, for diagnostics.
    pub fn message(&self) -> (r: String)
        ensures
            (self matches ParseError::InvalidSyntaxClose(t) ==> r@ == "invalid the close of syntax: "@
                + t@),
            (self matches ParseError::NotFindSyntaxClose(t) ==> r@ == "not find the close of syntax: "@
                + t@),
            (*self is FmtError ==> r@ == "format error"@),
    {
        match self {
            ParseError::InvalidSyntaxClose(t) => {
                let mut m = string_of(&crate::text::chars_of("invalid the close of syntax: "));
                m.append(t.as_str());
                m
            },
            ParseError::NotFindSyntaxClose(t) => {
                let mut m = string_of(&crate::text::chars_of("not find the close of syntax: "));
                m.append(t.as_str());
                m
            },
            ParseError::FmtError => string_of(&crate::text::chars_of("format error")),
        }
    }
}

/// A `NotFindSyntaxClose` carrying the given token.
pub(crate) fn not_find(tok: Vec<char>) -> (e: ParseError)
    ensures
        e@ == ErrModel::NotFindClose(tok@),
        !(e is FmtError),
{
    ParseError::NotFindSyntaxClose(string_of(&tok))
}

/// An `InvalidSyntaxClose` carrying the given token.
pub(crate) fn invalid_close(tok: Vec<char>) -> (e: ParseError)
    ensures
        e@ == ErrModel::InvalidClose(tok@),
        !(e is FmtError),
{
    ParseError::InvalidSyntaxClose(string_of(&tok))
}

/// Re-emit a comment, entered just after its `#`: skip one run of spaces,
/// then copy the payload with trailing spaces trimmed, as `# ` plus payload.
pub(crate) fn parse_comment(s: &Vec<char>, pos: &mut usize, out: &mut Vec<char>)
    requires
        *old(pos) <= s@.len(),
    ensures
        ({
            let sc = scan_comment(s@, *old(pos) as int);
            &&& *final(pos) as int == sc.pos
            &&& final(out)@ == old(out)@ + sc.text
            &&& *old(pos) <= *final(pos) <= s@.len()
        }),
{
    let ghost i0 = *pos as int;
    let n = s.len();
    while *pos < n && s[*pos] == ' '
        invariant
            *pos <= n,
            n == s@.len(),
            i0 <= *pos as int,
            scan_comment(s@, i0) == scan_comment(s@, *pos as int),
        decreases n - *pos,
    {
        *pos += 1;
    }
    if *pos >= n {
        out.push('#');
        proof {
            assert(out@ =~= old(out)@ + seq!['#']);
        }
        return ;
    }
    let c = s[*pos];
    *pos += 1;
    if c == '\n' {
        out.push('#');
        out.push('\n');
        proof {
            assert(out@ =~= old(out)@ + seq!['#', '\n']);
        }
        return ;
    }
    let mut acc: Vec<char> = Vec::new();
    acc.push('#');
    acc.push(' ');
    acc.push(c);
    proof {
        assert(acc@ =~= seq!['#', ' ', c]);
        assert(scan_comment(s@, i0) == comment_body(s@, *pos as int, acc@));
    }
    while *pos < n && s[*pos] != '\n'
        invariant
            *pos <= n,
            n == s@.len(),
            i0 < *pos as int,
            scan_comment(s@, i0) == comment_body(s@, *pos as int, acc@),
        decreases n - *pos,
    {
        acc.push(s[*pos]);
        *pos += 1;
    }
    let ghost payload = acc@;
    if *pos >= n {
        trim_trailing_spaces(&mut acc);
        extend_from(out, &acc);
    } else {
        *pos += 1;
        trim_trailing_spaces(&mut acc);
        acc.push('\n');
        proof {
            assert(acc@ =~= crate::model::trim_spaces(payload) + seq!['\n']);
        }
        extend_from(out, &acc);
    }
}

/// Scan a string literal, entered just after its opening quote, and return
/// its re-emitted text: `''`, a single-line literal copied verbatim, or a
/// triple-quoted literal copied byte-for-byte.
pub(crate) fn parse_string(s: &Vec<char>, pos: &mut usize) -> (r: Result<Vec<char>, ParseError>)
    requires
        *old(pos) <= s@.len(),
    ensures
        ({
            let m = scan_string(s@, *old(pos) as int);
            match r {
                Ok(t) => m == Ok::<Scan, ErrModel>(Scan { pos: *final(pos) as int, text: t@ })
                    && *old(pos) <= *final(pos) <= s@.len(),
                Err(e) => m == Err::<Scan, ErrModel>(e@) && !(e is FmtError),
            }
        }),
{
    let ghost i0 = *pos as int;
    let n = s.len();
    if *pos >= n || s[*pos] == '\n' {
        let q = vec!['\''];
        proof {
            assert(q@ =~= seq!['\'']);
        }
        return Err(not_find(q));
    }
    let c0 = s[*pos];
    if c0 == '\'' {
        if *pos + 1 < n && s[*pos + 1] == '\'' {
            // triple-quoted literal
            *pos += 2;
            let mut acc = vec!['\'', '\'', '\''];
            let mut last: char = '\'';
            let mut qc: u8 = 0;
            proof {
                assert(acc@ =~= seq!['\'', '\'', '\'']);
                assert(scan_string(s@, i0) == scan_multi_string(
                    s@,
                    i0 + 2,
                    '\'',
                    0,
                    seq!['\'', '\'', '\''],
                ));
            }
            loop
                invariant
                    *pos <= n,
                    n == s@.len(),
                    i0 == *old(pos) as int,
                    0 <= i0 < *pos as int,
                    qc == 0 || qc == 1 || qc == 2,
                    scan_string(s@, i0) == scan_multi_string(
                        s@,
                        *pos as int,
                        last,
                        qc as int,
                        acc@,
                    ),
                decreases n - *pos,
            {
                if *pos >= n {
                    let q = vec!['\'', '\'', '\''];
                    proof {
                        assert(q@ =~= seq!['\'', '\'', '\'']);
                    }
                    return Err(not_find(q));
                }
                let c = s[*pos];
                *pos += 1;
                if c == '\'' && last != '\\' {
                    if qc == 2 {
                        let ghost pre = acc@;
                        acc.push('\'');
                        acc.push('\'');
                        acc.push('\'');
                        proof {
                            assert(acc@ =~= pre + seq!['\'', '\'', '\'']);
                        }
                        return Ok(acc);
                    }
                    last = '\'';
                    qc = qc + 1;
                } else {
                    let ghost pre = acc@;
                    if qc == 1 {
                        acc.push('\'');
                    } else if qc == 2 {
                        acc.push('\'');
                        acc.push('\'');
                    }
                    acc.push(c);
                    proof {
                        assert(acc@ =~= pre + crate::model::pending_quotes(qc as int) + seq![c]);
                    }
                    last = c;
                    qc = 0;
                }
            }
        } else {
            *pos += 1;
            let t = vec!['\'', '\''];
            proof {
                assert(t@ =~= seq!['\'', '\'']);
            }
            return Ok(t);
        }
    } else {
        // single-line literal
        *pos += 1;
        let mut acc = vec!['\'', c0];
        let mut last: char = c0;
        proof {
            assert(acc@ =~= seq!['\'', c0]);
            assert(scan_string(s@, i0) == scan_alone_string(s@, i0 + 1, c0, seq!['\'', c0]));
        }
        loop
            invariant
                *pos <= n,
                n == s@.len(),
                i0 == *old(pos) as int,
                0 <= i0 < *pos as int,
                scan_string(s@, i0) == scan_alone_string(s@, *pos as int, last, acc@),
            decreases n - *pos,
        {
            if *pos >= n {
                let q = vec!['\''];
                proof {
                    assert(q@ =~= seq!['\'']);
                }
                return Err(not_find(q));
            }
            let c = s[*pos];
            if c == '\n' {
                let q = vec!['\''];
                proof {
                    assert(q@ =~= seq!['\'']);
                }
                return Err(not_find(q));
            }
            *pos += 1;
            if c == '\'' && last != '\\' {
                acc.push('\'');
                return Ok(acc);
            }
            acc.push(c);
            last = c;
        }
    }
}


/// Dispatch one ordinary character `c`, just consumed at `*old(pos) - 1`:
/// opens strings and lists, rejects stray closers, disambiguates unary from
/// binary `+`/`-`, and groups characters into tokens by class.
pub(crate) fn match_char_parse(
    cfg: &Configuration,
    s: &Vec<char>,
    pos: &mut usize,
    c: char,
    buf: &mut Buffer,
    indent: usize,
) -> (r: Result<(), ParseError>)
    requires
        len_ok(s@),
        *old(pos) <= s@.len(),
        indent as int <= 255 * (*old(pos) as int),
    ensures
        ({
            let m = step_char(s@, *old(pos) as int, c, old(buf)@, indent as int, *cfg);
            match r {
                Ok(()) => m == Ok::<BufScan, ErrModel>(
                    BufScan { pos: *final(pos) as int, buf: final(buf)@ },
                ) && *old(pos) <= *final(pos) <= s@.len(),
                Err(e) => m == Err::<BufScan, ErrModel>(e@) && !(e is FmtError),
            }
        }),
    decreases s@.len() - *pos, 2int,
{
    if c == '\'' {
        buf.merge_span_to_line();
        match parse_string(s, pos) {
            Err(e) => Err(e),
            Ok(t) => {
                buf.span = t;
                buf.merge_span_to_line();
                buf.last_identifier = true;
                Ok(())
            },
        }
    } else if c == '(' {
        buf.merge_span_to_line();
        buf.move_line_to_span();
        match parse_argument(cfg, s, pos, &buf.span, indent) {
            Err(e) => Err(e),
            Ok(t) => {
                extend_from(&mut buf.span, &t);
                buf.last_identifier = true;
                Ok(())
            },
        }
    } else if c == '[' {
        let was_ident = buf.last_identifier;
        buf.merge_span_to_line();
        let in_pat = vec![' ', 'i', 'n'];
        proof {
            assert(in_pat@ =~= seq![' ', 'i', 'n']);
        }
        let subscript = was_ident && !crate::grammar::ends_with_chars(&buf.line, &in_pat);
        if subscript {
            buf.move_line_to_span();
        }
        match parse_array(cfg, s, pos, indent) {
            Err(e) => Err(e),
            Ok(t) => {
                extend_from(&mut buf.span, &t);
                buf.last_identifier = true;
                Ok(())
            },
        }
    } else if c == '{' {
        buf.merge_span_to_line();
        match parse_dictionary(cfg, s, pos, indent) {
            Err(e) => Err(e),
            Ok(t) => {
                extend_from(&mut buf.span, &t);
                buf.last_identifier = true;
                Ok(())
            },
        }
    } else if c == ')' || c == ']' || c == '}' {
        let tok = vec![c];
        proof {
            assert(tok@ =~= seq![c]);
        }
        Err(invalid_close(tok))
    } else if c == '+' || c == '-' {
        let li = (buf.span.len() == 0 || !buf.last_identifier) && buf.begin_statement;
        buf.last_identifier = li;
        buf.begin_statement = false;
        buf.merge_span_to_line();
        buf.span.push(c);
        Ok(())
    } else if c == '*' || c == '/' || c == '%' {
        buf.last_identifier = false;
        buf.begin_statement = false;
        buf.merge_span_to_line();
        buf.span.push(c);
        Ok(())
    } else if buf.last_identifier != is_identifier(c) {
        let li = is_identifier(c);
        buf.last_identifier = li;
        if !li {
            buf.begin_statement = true;
        }
        buf.merge_span_to_line();
        buf.span.push(c);
        Ok(())
    } else {
        buf.begin_statement = false;
        buf.span.push(c);
        Ok(())
    }
}

/// Scan an array literal or subscript, entered just after its `[`.
pub(crate) fn parse_array(
    cfg: &Configuration,
    s: &Vec<char>,
    pos: &mut usize,
    indent: usize,
) -> (r: Result<Vec<char>, ParseError>)
    requires
        len_ok(s@),
        *old(pos) <= s@.len(),
        indent as int <= 255 * (*old(pos) as int),
    ensures
        ({
            let m = scan_list(
                s@,
                *old(pos) as int,
                *cfg,
                indent as int,
                '[',
                ']',
                false,
                list_init(indent as int),
            );
            match r {
                Ok(t) => m == Ok::<Scan, ErrModel>(Scan { pos: *final(pos) as int, text: t@ })
                    && *old(pos) < *final(pos) <= s@.len(),
                Err(e) => m == Err::<Scan, ErrModel>(e@) && !(e is FmtError),
            }
        }),
    decreases s@.len() - *pos, 1int,
{
    parse_list(cfg, s, pos, indent, '[', ']', false)
}

/// Scan a dictionary literal, entered just after its `{`.
pub(crate) fn parse_dictionary(
    cfg: &Configuration,
    s: &Vec<char>,
    pos: &mut usize,
    indent: usize,
) -> (r: Result<Vec<char>, ParseError>)
    requires
        len_ok(s@),
        *old(pos) <= s@.len(),
        indent as int <= 255 * (*old(pos) as int),
    ensures
        ({
            let m = scan_list(
                s@,
                *old(pos) as int,
                *cfg,
                indent as int,
                '{',
                '}',
                false,
                list_init(indent as int),
            );
            match r {
                Ok(t) => m == Ok::<Scan, ErrModel>(Scan { pos: *final(pos) as int, text: t@ })
                    && *old(pos) < *final(pos) <= s@.len(),
                Err(e) => m == Err::<Scan, ErrModel>(e@) && !(e is FmtError),
            }
        }),
    decreases s@.len() - *pos, 1int,
{
    parse_list(cfg, s, pos, indent, '{', '}', false)
}

/// Scan an argument list, entered just after its `(`. `head` is the text the
/// list attaches to; when it ends in a recognized call name and
/// nowrap-before-name is on, the list may keep its first positional argument
/// on the header line.
pub(crate) fn parse_argument(
    cfg: &Configuration,
    s: &Vec<char>,
    pos: &mut usize,
    head: &Vec<char>,
    indent: usize,
) -> (r: Result<Vec<char>, ParseError>)
    requires
        len_ok(s@),
        *old(pos) <= s@.len(),
        indent as int <= 255 * (*old(pos) as int),
    ensures
        ({
            let m = scan_list(
                s@,
                *old(pos) as int,
                *cfg,
                indent as int,
                '(',
                ')',
                crate::grammar::spec_has_call_name(head@, *cfg),
                list_init(indent as int),
            );
            match r {
                Ok(t) => m == Ok::<Scan, ErrModel>(Scan { pos: *final(pos) as int, text: t@ })
                    && *old(pos) < *final(pos) <= s@.len(),
                Err(e) => m == Err::<Scan, ErrModel>(e@) && !(e is FmtError),
            }
        }),
    decreases s@.len() - *pos, 1int,
{
    let hn = has_call_name(head, cfg);
    parse_list(cfg, s, pos, indent, '(', ')', hn)
}

/// Scan a comma-separated list opened by `open_c` until `close_c`, and return
/// its rendered text. See `scan_list` and `render_list` for the layout rules.
pub(crate) fn parse_list(
    cfg: &Configuration,
    s: &Vec<char>,
    pos: &mut usize,
    indent_outer: usize,
    open_c: char,
    close_c: char,
    has_name: bool,
) -> (r: Result<Vec<char>, ParseError>)
    requires
        len_ok(s@),
        *old(pos) <= s@.len(),
        indent_outer as int <= 255 * (*old(pos) as int),
    ensures
        ({
            let m = scan_list(
                s@,
                *old(pos) as int,
                *cfg,
                indent_outer as int,
                open_c,
                close_c,
                has_name,
                list_init(indent_outer as int),
            );
            match r {
                Ok(t) => m == Ok::<Scan, ErrModel>(Scan { pos: *final(pos) as int, text: t@ })
                    && *old(pos) < *final(pos) <= s@.len(),
                Err(e) => m == Err::<Scan, ErrModel>(e@) && !(e is FmtError),
            }
        }),
    decreases s@.len() - *pos, 0int,
{
    let ghost i0 = *pos as int;
    let n = s.len();
    let mut items: Vec<ListItem> = Vec::new();
    let mut key: Vec<char> = Vec::new();
    let mut val: Vec<char> = Vec::new();
    let mut buf = Buffer::new();
    let mut multiline = false;
    let mut newline_comment = false;
    let mut indent_inner = indent_outer;
    proof {
        let st0 = ListState {
            items: items_view(items@),
            key: key@,
            val: val@,
            buf: buf@,
            multiline: multiline,
            newline_comment: newline_comment,
            indent_inner: indent_inner as int,
        };
        assert(st0 =~= list_init(indent_outer as int));
    }
    loop
        invariant
            n == s@.len(),
            len_ok(s@),
            i0 == *old(pos) as int,
            0 <= i0 <= *pos as int,
            *pos <= n,
            indent_outer as int <= 255 * i0,
            indent_inner as int <= 255 * (*pos as int),
            scan_list(
                s@,
                i0,
                *cfg,
                indent_outer as int,
                open_c,
                close_c,
                has_name,
                list_init(indent_outer as int),
            ) == scan_list(
                s@,
                *pos as int,
                *cfg,
                indent_outer as int,
                open_c,
                close_c,
                has_name,
                ListState {
                    items: items_view(items@),
                    key: key@,
                    val: val@,
                    buf: buf@,
                    multiline: multiline,
                    newline_comment: newline_comment,
                    indent_inner: indent_inner as int,
                },
            ),
        decreases n - *pos,
    {
        let ghost st_pre = ListState {
            items: items_view(items@),
            key: key@,
            val: val@,
            buf: buf@,
            multiline: multiline,
            newline_comment: newline_comment,
            indent_inner: indent_inner as int,
        };
        if *pos >= n {
            let tok = vec![open_c];
            proof {
                assert(tok@ =~= seq![open_c]);
            }
            return Err(not_find(tok));
        }
        let c = s[*pos];
        let ghost p = *pos as int;
        *pos += 1;
        if c == close_c {
            buf.move_line_to_stage(&mut val);
            if key.len() > 0 || val.len() > 0 {
                val.push(',');
                let li = ListItem { key: key, val: val };
                proof {
                    lemma_items_view_push(items@, li);
                }
                items.push(li);
            }
            let ghost items_fin = items_view(items@);
            let out = render_list_exec(
                items,
                multiline,
                indent_inner,
                indent_outer,
                cfg,
                open_c,
                close_c,
                has_name,
            );
            return Ok(out);
        } else if c == '#' {
            buf.move_line_to_stage(&mut val);
            let committed = key.len() > 0 || val.len() > 0;
            if committed {
                val.push(',');
                let li = ListItem { key: key, val: val };
                proof {
                    lemma_items_view_push(items@, li);
                }
                items.push(li);
                key = Vec::new();
                val = Vec::new();
            } else if newline_comment {
                let li = ListItem { key: key, val: val };
                proof {
                    lemma_items_view_push(items@, li);
                }
                items.push(li);
                key = Vec::new();
                val = Vec::new();
            }
            if items.len() > 0 {
                let ghost items_mid = items@;
                let mut li = match items.pop() {
                    Some(x) => x,
                    None => ListItem { key: Vec::new(), val: Vec::new() },
                };
                if li.val.len() > 0 {
                    li.val.push(' ');
                }
                parse_comment(s, pos, &mut li.val);
                let ghost liv = li@;
                proof {
                    lemma_items_view_push(items@, li);
                }
                items.push(li);
                proof {
                    assert(items_view(items@) =~= items_view(items_mid).update(
                        items_mid.len() - 1,
                        liv,
                    ));
                }
            }
            newline_comment = true;
        } else if c == ':' {
            buf.move_line_to_stage(&mut key);
            buf.last_identifier = false;
        } else if c == ',' {
            buf.move_line_to_stage(&mut val);
            if key.len() > 0 || val.len() > 0 {
                val.push(',');
                let li = ListItem { key: key, val: val };
                proof {
                    lemma_items_view_push(items@, li);
                }
                items.push(li);
                key = Vec::new();
                val = Vec::new();
            }
            newline_comment = false;
            buf.last_identifier = false;
        } else if c == '\n' {
            buf.merge_span_to_line();
            multiline = true;
            newline_comment = true;
            indent_inner = indent_outer + (cfg.indent_width as usize);
        } else if c == ' ' {
            buf.merge_span_to_line();
        } else {
            match match_char_parse(cfg, s, pos, c, &mut buf, indent_inner) {
                Err(e) => {
                    return Err(e);
                },
                Ok(()) => {},
            }
        }
        proof {
            let st_next = ListState {
                items: items_view(items@),
                key: key@,
                val: val@,
                buf: buf@,
                multiline: multiline,
                newline_comment: newline_comment,
                indent_inner: indent_inner as int,
            };
            assert(scan_list(
                s@,
                p,
                *cfg,
                indent_outer as int,
                open_c,
                close_c,
                has_name,
                st_pre,
            ) == scan_list(
                s@,
                *pos as int,
                *cfg,
                indent_outer as int,
                open_c,
                close_c,
                has_name,
                st_next,
            ));
        }
    }
}


/// Scan the body of an `if` or `foreach` block, entered just after the space
/// that follows its opening keyword, up to and including its terminator; the
/// returned text starts with the space that separates header from body.
pub(crate) fn parse_block(
    cfg: &Configuration,
    s: &Vec<char>,
    pos: &mut usize,
    indent_outer: usize,
    is_if: bool,
) -> (r: Result<Vec<char>, ParseError>)
    requires
        len_ok(s@),
        *old(pos) <= s@.len(),
        indent_outer as int <= 255 * (*old(pos) as int),
    ensures
        ({
            let m = scan_block(
                s@,
                *old(pos) as int,
                *cfg,
                indent_outer as int,
                is_if,
                block_init(),
            );
            match r {
                Ok(t) => m == Ok::<Scan, ErrModel>(Scan { pos: *final(pos) as int, text: t@ })
                    && *old(pos) <= *final(pos) <= s@.len(),
                Err(e) => m == Err::<Scan, ErrModel>(e@) && !(e is FmtError),
            }
        }),
    decreases s@.len() - *pos, 0int,
{
    let ghost i0 = *pos as int;
    let n = s.len();
    let inner: usize = indent_outer + (cfg.indent_width as usize);
    let outer_sp = crate::text::make_spaces(indent_outer);
    let inner_sp = crate::text::make_spaces(inner);
    let end_k: Vec<char> = if is_if {
        vec!['e', 'n', 'd', 'i', 'f']
    } else {
        vec!['e', 'n', 'd', 'f', 'o', 'r', 'e', 'a', 'c', 'h']
    };
    let other_k: Vec<char> = if is_if {
        vec!['e', 'n', 'd', 'f', 'o', 'r', 'e', 'a', 'c', 'h']
    } else {
        vec!['e', 'n', 'd', 'i', 'f']
    };
    let open_k: Vec<char> = if is_if {
        vec!['i', 'f']
    } else {
        vec!['f', 'o', 'r', 'e', 'a', 'c', 'h']
    };
    let kw_if_v: Vec<char> = vec!['i', 'f'];
    let kw_for_v: Vec<char> = vec!['f', 'o', 'r', 'e', 'a', 'c', 'h'];
    proof {
        assert(end_k@ =~= end_kw(is_if));
        assert(other_k@ =~= other_end_kw(is_if));
        assert(open_k@ =~= open_kw(is_if));
        assert(kw_if_v@ =~= crate::grammar::kw_if());
        assert(kw_for_v@ =~= crate::grammar::kw_foreach());
    }
    let mut buf = Buffer::new();
    let mut first_line = true;
    let mut acc: Vec<char> = Vec::new();
    acc.push(' ');
    proof {
        assert(acc@ =~= seq![' ']);
        let st0 = BlockState { buf: buf@, first_line: first_line, acc: acc@ };
        assert(st0 =~= block_init());
    }
    loop
        invariant
            n == s@.len(),
            len_ok(s@),
            i0 == *old(pos) as int,
            0 <= i0 <= *pos as int,
            *pos <= n,
            indent_outer as int <= 255 * i0,
            inner as int == indent_outer as int + cfg.indent_width as int,
            outer_sp@ == sp(indent_outer as int),
            inner_sp@ == sp(inner as int),
            end_k@ == end_kw(is_if),
            other_k@ == other_end_kw(is_if),
            open_k@ == open_kw(is_if),
            kw_if_v@ == crate::grammar::kw_if(),
            kw_for_v@ == crate::grammar::kw_foreach(),
            scan_block(s@, i0, *cfg, indent_outer as int, is_if, block_init()) == scan_block(
                s@,
                *pos as int,
                *cfg,
                indent_outer as int,
                is_if,
                BlockState { buf: buf@, first_line: first_line, acc: acc@ },
            ),
        decreases n - *pos,
    {
        let ghost st_pre = BlockState { buf: buf@, first_line: first_line, acc: acc@ };
        if *pos >= n {
            if vec_eq(&buf.span, &end_k) {
                let mut out = acc;
                extend_from(&mut out, &outer_sp);
                extend_from(&mut out, &end_k);
                return Ok(out);
            } else {
                let mut tok: Vec<char> = Vec::new();
                extend_from(&mut tok, &open_k);
                return Err(not_find(tok));
            }
        }
        let c = s[*pos];
        let ghost p = *pos as int;
        *pos += 1;
        if c == '#' {
            buf.merge_span_to_line();
            let mut cmt: Vec<char> = Vec::new();
            parse_comment(s, pos, &mut cmt);
            buf.span = cmt;
            buf.move_line_to_stage_with_indent(&mut acc, &mut first_line, is_if, &outer_sp, &inner_sp);
        } else if c == '\n' || c == ' ' {
            let is_kw_for = vec_eq(&buf.span, &kw_for_v);
            let is_kw_if2 = vec_eq(&buf.span, &kw_if_v);
            if is_kw_for || is_kw_if2 {
                match parse_block(cfg, s, pos, inner, is_kw_if2) {
                    Err(e) => {
                        return Err(e);
                    },
                    Ok(t) => {
                        extend_from(&mut buf.span, &t);
                        buf.move_line_to_stage_with_indent(
                            &mut acc,
                            &mut first_line,
                            is_if,
                            &outer_sp,
                            &inner_sp,
                        );
                        if c == '\n' {
                            let ghost a2 = acc@;
                            acc.push('\n');
                            proof {
                                assert(acc@ =~= a2 + seq!['\n']);
                            }
                        }
                    },
                }
            } else if vec_eq(&buf.span, &other_k) {
                let mut tok: Vec<char> = Vec::new();
                core::mem::swap(&mut tok, &mut buf.span);
                return Err(invalid_close(tok));
            } else if vec_eq(&buf.span, &end_k) {
                let mut out = acc;
                extend_from(&mut out, &outer_sp);
                extend_from(&mut out, &end_k);
                if c == '\n' {
                    out.push('\n');
                }
                proof {
                    assert(out@ =~= st_pre.acc + sp(indent_outer as int) + end_kw(is_if) + (
                    if c == '\n' {
                        seq!['\n']
                    } else {
                        Seq::<char>::empty()
                    }));
                }
                return Ok(out);
            } else if c == '\n' {
                buf.move_line_to_stage_with_indent(
                    &mut acc,
                    &mut first_line,
                    is_if,
                    &outer_sp,
                    &inner_sp,
                );
                let ghost a2 = acc@;
                acc.push('\n');
                proof {
                    assert(acc@ =~= a2 + seq!['\n']);
                }
            } else {
                buf.merge_span_to_line();
            }
        } else if !is_if && c == ',' {
            buf.last_identifier = false;
            buf.begin_statement = true;
            buf.span.push(',');
            buf.merge_span_to_line();
        } else {
            match match_char_parse(cfg, s, pos, c, &mut buf, inner) {
                Err(e) => {
                    return Err(e);
                },
                Ok(()) => {},
            }
        }
        proof {
            let st_next = BlockState { buf: buf@, first_line: first_line, acc: acc@ };
            assert(scan_block(s@, p, *cfg, indent_outer as int, is_if, st_pre) == scan_block(
                s@,
                *pos as int,
                *cfg,
                indent_outer as int,
                is_if,
                st_next,
            ));
        }
    }
}

/// Scan an `if` block body up to its `endif`.
pub(crate) fn parse_if_statement(
    cfg: &Configuration,
    s: &Vec<char>,
    pos: &mut usize,
    indent_outer: usize,
) -> (r: Result<Vec<char>, ParseError>)
    requires
        len_ok(s@),
        *old(pos) <= s@.len(),
        indent_outer as int <= 255 * (*old(pos) as int),
    ensures
        ({
            let m = scan_block(s@, *old(pos) as int, *cfg, indent_outer as int, true, block_init());
            match r {
                Ok(t) => m == Ok::<Scan, ErrModel>(Scan { pos: *final(pos) as int, text: t@ })
                    && *old(pos) <= *final(pos) <= s@.len(),
                Err(e) => m == Err::<Scan, ErrModel>(e@) && !(e is FmtError),
            }
        }),
{
    parse_block(cfg, s, pos, indent_outer, true)
}

/// Scan a `foreach` block body up to its `endforeach`.
pub(crate) fn parse_for_statement(
    cfg: &Configuration,
    s: &Vec<char>,
    pos: &mut usize,
    indent_outer: usize,
) -> (r: Result<Vec<char>, ParseError>)
    requires
        len_ok(s@),
        *old(pos) <= s@.len(),
        indent_outer as int <= 255 * (*old(pos) as int),
    ensures
        ({
            let m = scan_block(
                s@,
                *old(pos) as int,
                *cfg,
                indent_outer as int,
                false,
                block_init(),
            );
            match r {
                Ok(t) => m == Ok::<Scan, ErrModel>(Scan { pos: *final(pos) as int, text: t@ })
                    && *old(pos) <= *final(pos) <= s@.len(),
                Err(e) => m == Err::<Scan, ErrModel>(e@) && !(e is FmtError),
            }
        }),
{
    parse_block(cfg, s, pos, indent_outer, false)
}

/// Scan a whole source text and return the formatted text.
pub(crate) fn parse_to_stage(cfg: &Configuration, s: &Vec<char>) -> (r: Result<
    Vec<char>,
    ParseError,
>)
    requires
        len_ok(s@),
    ensures
        ({
            let m = scan_top(s@, 0, *cfg, buf_init(), Seq::empty());
            match r {
                Ok(t) => m == Ok::<Seq<char>, ErrModel>(t@),
                Err(e) => m == Err::<Seq<char>, ErrModel>(e@) && !(e is FmtError),
            }
        }),
{
    let n = s.len();
    let mut pos: usize = 0;
    let mut buf = Buffer::new();
    let mut acc: Vec<char> = Vec::new();
    let kw_if_v: Vec<char> = vec!['i', 'f'];
    let kw_for_v: Vec<char> = vec!['f', 'o', 'r', 'e', 'a', 'c', 'h'];
    let kw_elif_v: Vec<char> = vec!['e', 'l', 'i', 'f'];
    let kw_else_v: Vec<char> = vec!['e', 'l', 's', 'e'];
    let kw_endif_v: Vec<char> = vec!['e', 'n', 'd', 'i', 'f'];
    let kw_endfor_v: Vec<char> = vec!['e', 'n', 'd', 'f', 'o', 'r', 'e', 'a', 'c', 'h'];
    proof {
        assert(kw_if_v@ =~= crate::grammar::kw_if());
        assert(kw_for_v@ =~= crate::grammar::kw_foreach());
        assert(kw_elif_v@ =~= crate::grammar::kw_elif());
        assert(kw_else_v@ =~= crate::grammar::kw_else());
        assert(kw_endif_v@ =~= crate::grammar::kw_endif());
        assert(kw_endfor_v@ =~= crate::grammar::kw_endforeach());
        assert(acc@ =~= Seq::<char>::empty());
        assert(buf@ =~= buf_init());
    }
    loop
        invariant
            n == s@.len(),
            len_ok(s@),
            0 <= pos <= n,
            kw_if_v@ == crate::grammar::kw_if(),
            kw_for_v@ == crate::grammar::kw_foreach(),
            kw_elif_v@ == crate::grammar::kw_elif(),
            kw_else_v@ == crate::grammar::kw_else(),
            kw_endif_v@ == crate::grammar::kw_endif(),
            kw_endfor_v@ == crate::grammar::kw_endforeach(),
            scan_top(s@, 0, *cfg, buf_init(), Seq::empty()) == scan_top(
                s@,
                pos as int,
                *cfg,
                buf@,
                acc@,
            ),
        decreases n - pos,
    {
        let ghost buf_pre = buf@;
        let ghost acc_pre = acc@;
        if pos >= n {
            buf.merge_span_to_line();
            extend_from(&mut acc, &buf.line);
            return Ok(acc);
        }
        let c = s[pos];
        let ghost p = pos as int;
        pos += 1;
        if c == '#' {
            buf.merge_span_to_line();
            let mut cmt: Vec<char> = Vec::new();
            parse_comment(s, &mut pos, &mut cmt);
            buf.span = cmt;
            buf.move_line_to_stage(&mut acc);
        } else if c == '\n' {
            buf.move_line_to_stage(&mut acc);
            let ghost a2 = acc@;
            acc.push('\n');
            proof {
                assert(acc@ =~= a2 + seq!['\n']);
            }
        } else if c == ' ' {
            let is_kw_for = vec_eq(&buf.span, &kw_for_v);
            let is_kw_if2 = vec_eq(&buf.span, &kw_if_v);
            if is_kw_for || is_kw_if2 {
                match parse_block(cfg, s, &mut pos, 0, is_kw_if2) {
                    Err(e) => {
                        return Err(e);
                    },
                    Ok(t) => {
                        extend_from(&mut buf.span, &t);
                        buf.move_line_to_stage(&mut acc);
                    },
                }
            } else if vec_eq(&buf.span, &kw_elif_v) || vec_eq(&buf.span, &kw_else_v) || vec_eq(
                &buf.span,
                &kw_endif_v,
            ) || vec_eq(&buf.span, &kw_endfor_v) {
                let mut tok: Vec<char> = Vec::new();
                core::mem::swap(&mut tok, &mut buf.span);
                return Err(invalid_close(tok));
            } else {
                buf.merge_span_to_line();
            }
        } else {
            match match_char_parse(cfg, s, &mut pos, c, &mut buf, 0) {
                Err(e) => {
                    return Err(e);
                },
                Ok(()) => {},
            }
        }
        proof {
            assert(scan_top(s@, p, *cfg, buf_pre, acc_pre) == scan_top(
                s@,
                pos as int,
                *cfg,
                buf@,
                acc@,
            ));
        }
    }
}

/// Format the characters of one source text under the given configuration,
/// appending the formatted text to `stage` on success; on an error `stage` is
/// left unchanged and no partial output is produced.
pub fn parse(config: &Configuration, chars: &Vec<char>, stage: &mut String) -> (r: Result<
    (),
    ParseError,
>)
    requires
        len_ok(chars@),
    ensures
        ({
            let m = spec_format(chars@, *config);
            match r {
                Ok(()) => m is Ok && final(stage)@ == old(stage)@ + m->Ok_0,
                Err(e) => m == Err::<Seq<char>, ErrModel>(e@) && final(stage)@ == old(stage)@ && !(e
                    is FmtError),
            }
        }),
{
    match parse_to_stage(config, chars) {
        Ok(t) => {
            let txt = string_of(&t);
            stage.append(txt.as_str());
            Ok(())
        },
        Err(e) => Err(e),
    }
}

} // verus!
