use vstd::prelude::*;

use crate::configuration::Configuration;
use crate::model::{
    join_sep, key_max, merge_item, pad_to, render_list, rendered_key, sp, strip_last_comma,
    trim_newlines, Item,
};
use crate::text::{extend_from, make_spaces, trim_trailing_newlines};

verus! {

/// One list item under construction: optional key text and value text.
pub struct ListItem {
    pub key: Vec<char>,
    pub val: Vec<char>,
}

impl View for ListItem {
    type V = Item;

    open spec fn view(&self) -> Item {
        Item { key: self.key@, val: self.val@ }
    }
}

/// The items a vector of `ListItem` stands for.
pub open spec fn items_view(v: Seq<ListItem>) -> Seq<Item> {
    v.map_values(|it: ListItem| it@)
}

/// The texts a vector of character vectors stands for.
pub open spec fn vecs_view(v: Seq<Vec<char>>) -> Seq<Seq<char>> {
    v.map_values(|x: Vec<char>| x@)
}

pub proof fn lemma_items_view_push(v: Seq<ListItem>, x: ListItem)
    ensures
        items_view(v.push(x)) == items_view(v).push(x@),
{
    assert(items_view(v.push(x)) =~= items_view(v).push(x@));
}

pub proof fn lemma_vecs_view_push(v: Seq<Vec<char>>, x: Vec<char>)
    ensures
        vecs_view(v.push(x)) == vecs_view(v).push(x@),
{
    assert(vecs_view(v.push(x)) =~= vecs_view(v).push(x@));
}

/// A copy of a character vector.
pub fn clone_chars(v: &Vec<char>) -> (r: Vec<char>)
    ensures
        r@ == v@,
{
    let mut r: Vec<char> = Vec::new();
    extend_from(&mut r, v);
    proof {
        assert(r@ =~= v@);
    }
    r
}

/// Render a closed list from its committed items, exactly as `render_list`
/// describes.
#[verifier::rlimit(100)]
#[verifier::spinoff_prover]
pub fn render_list_exec(
    items: Vec<ListItem>,
    multiline: bool,
    indent_inner: usize,
    indent_outer: usize,
    cfg: &Configuration,
    open_c: char,
    close_c: char,
    has_name: bool,
) -> (out: Vec<char>)
    ensures
        out@ == render_list(
            items_view(items@),
            multiline,
            indent_inner as int,
            indent_outer as int,
            *cfg,
            open_c,
            close_c,
            has_name,
        ),
{
    let ghost items0 = items_view(items@);
    let n = items.len();
    if n == 0 {
        let mut out: Vec<char> = Vec::new();
        out.push(open_c);
        out.push(close_c);
        proof {
            assert(out@ =~= seq![open_c, close_c]);
        }
        return out;
    }
    // rendered keys, trimmed values, widest rendered key
    let mut rend: Vec<ListItem> = Vec::new();
    let mut w: usize = 0;
    let mut k: usize = 0;
    while k < n
        invariant
            k <= n,
            n == items@.len(),
            items0 == items_view(items@),
            rend@.len() == k,
            forall|j: int|
                0 <= j < k ==> (#[trigger] rend@[j]).key@ == rendered_key(items0[j].key, *cfg)
                    && rend@[j].val@ == trim_newlines(items0[j].val),
            w as int == key_max(items0.take(k as int), *cfg),
        decreases n - k,
    {
        let mut key2 = clone_chars(&items[k].key);
        if cfg.space_before_colon && key2.len() > 0 {
            key2.push(' ');
        }
        let mut val2 = clone_chars(&items[k].val);
        trim_trailing_newlines(&mut val2);
        if key2.len() > w {
            w = key2.len();
        }
        proof {
            assert(key2@ == rendered_key(items0[k as int].key, *cfg));
            assert(items0.take(k + 1).drop_last() =~= items0.take(k as int));
            assert(items0.take(k + 1).last() == items0[k as int]);
        }
        rend.push(ListItem { key: key2, val: val2 });
        k += 1;
    }
    proof {
        assert(items0.take(n as int) =~= items0);
    }
    // merge keys and values
    let mut merged: Vec<Vec<char>> = Vec::new();
    let mut k: usize = 0;
    while k < n
        invariant
            k <= n,
            n == items@.len(),
            items0 == items_view(items@),
            rend@.len() == n,
            forall|j: int|
                0 <= j < n ==> (#[trigger] rend@[j]).key@ == rendered_key(items0[j].key, *cfg)
                    && rend@[j].val@ == trim_newlines(items0[j].val),
            w as int == key_max(items0, *cfg),
            merged@.len() == k,
            forall|j: int|
                0 <= j < k ==> vecs_view(merged@)[j] == merge_item(items0[j], w as int, *cfg),
        decreases n - k,
    {
        let ghost pre = merged@;
        if rend[k].key.len() == 0 {
            let v = clone_chars(&rend[k].val);
            proof {
                assert(v@ == merge_item(items0[k as int], w as int, *cfg));
                lemma_vecs_view_push(pre, v);
            }
            merged.push(v);
        } else {
            let mut t = clone_chars(&rend[k].key);
            if cfg.align_colon {
                while t.len() < w
                    invariant
                        0 <= k < n,
                        rend@.len() == n,
                        pad_to(t@, w as int) == pad_to(rend@[k as int].key@, w as int),
                    decreases w - t.len(),
                {
                    t.push(' ');
                }
                proof {
                    assert(t@ == pad_to(rend@[k as int].key@, w as int));
                }
            }
            let ghost padded = t@;
            t.push(':');
            t.push(' ');
            extend_from(&mut t, &rend[k].val);
            proof {
                assert(t@ =~= padded + seq![':', ' '] + rend@[k as int].val@);
                assert(t@ == merge_item(items0[k as int], w as int, *cfg));
                lemma_vecs_view_push(pre, t);
            }
            merged.push(t);
        }
        proof {
            assert(forall|j: int|
                0 <= j < k + 1 ==> vecs_view(merged@)[j] == merge_item(items0[j], w as int, *cfg));
        }
        k += 1;
    }
    let ghost spec_merged = items0.map_values(|it: Item| merge_item(it, w as int, *cfg));
    proof {
        assert(vecs_view(merged@) =~= spec_merged);
    }
    // drop the last item's trailing comma unless every comma is kept
    if !multiline || !cfg.wrap_close_brace {
        let ghost before = merged@;
        let last_opt = merged.pop();
        let mut lastv = match last_opt {
            Some(v) => v,
            None => Vec::new(),
        };
        let ll = lastv.len();
        if ll > 0 && lastv[ll - 1] == ',' {
            lastv.pop();
        }
        merged.push(lastv);
        proof {
            assert(vecs_view(merged@) =~= strip_last_comma(spec_merged));
        }
    }
    let ghost merged2 = if !multiline || !cfg.wrap_close_brace {
        strip_last_comma(spec_merged)
    } else {
        spec_merged
    };
    proof {
        assert(vecs_view(merged@) == merged2);
    }
    // separators and frame
    let inner_sp = make_spaces(indent_inner);
    let outer_sp = make_spaces(indent_outer);
    let mut sep: Vec<char> = Vec::new();
    if multiline {
        sep.push('\n');
        extend_from(&mut sep, &inner_sp);
        proof {
            assert(sep@ =~= seq!['\n'] + sp(indent_inner as int));
        }
    } else {
        sep.push(' ');
        proof {
            assert(sep@ =~= seq![' ']);
        }
    }
    let mut ibs: Vec<char> = Vec::new();
    if cfg.space_inner_bracket {
        ibs.push(' ');
        proof {
            assert(ibs@ =~= seq![' ']);
        }
    }
    let mut out: Vec<char> = Vec::new();
    out.push(open_c);
    // head
    if multiline && has_name && items[0].key.len() == 0 {
        extend_from(&mut out, &ibs);
    } else if multiline {
        out.push('\n');
        extend_from(&mut out, &inner_sp);
    } else {
        extend_from(&mut out, &ibs);
    }
    let ghost head_done = out@;
    // body
    let mut k: usize = 0;
    while k < n
        invariant
            k <= n,
            merged@.len() == n,
            vecs_view(merged@) == merged2,
            merged2.len() == n,
            n >= 1,
            out@ == head_done + join_sep(merged2.take(k as int), sep@),
        decreases n - k,
    {
        if k > 0 {
            extend_from(&mut out, &sep);
        }
        extend_from(&mut out, &merged[k]);
        proof {
            assert(merged2.take(k + 1).drop_last() =~= merged2.take(k as int));
            assert(merged2.take(k + 1).last() == merged2[k as int]);
            if k == 0 {
                assert(join_sep(merged2.take(1), sep@) == merged2[0]);
                assert(out@ =~= head_done + join_sep(merged2.take(1), sep@));
            } else {
                assert(out@ =~= head_done + join_sep(merged2.take(k + 1), sep@));
            }
        }
        k += 1;
    }
    proof {
        assert(merged2.take(n as int) =~= merged2);
    }
    // foot
    if multiline && cfg.wrap_close_brace {
        out.push('\n');
        extend_from(&mut out, &outer_sp);
    } else {
        extend_from(&mut out, &ibs);
    }
    out.push(close_c);
    proof {
        let ghost target = render_list(
            items0,
            multiline,
            indent_inner as int,
            indent_outer as int,
            *cfg,
            open_c,
            close_c,
            has_name,
        );
        assert(out@ =~= target);
    }
    out
}

} // verus!
