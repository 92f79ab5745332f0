use vstd::prelude::*;

use crate::text::{
    chars_of, line_bounds, lines_spec, push_char, push_chars, push_str, trim_bounds, trim_spec,
    cut, string_of,
};

verus! {

/// The comment lines that follow the message in the file handed to the editor.
pub open spec fn editor_help() -> Seq<char> {
    "# Please enter the commit message for your changes."@ + seq!['\n']
        + "# Lines starting with '#' will be ignored."@ + seq!['\n']
        + "# An empty message aborts the commit."@ + seq!['\n']
}

/// The file handed to the editor: the message to start from (or an empty line),
/// then the comment lines.
pub open spec fn commit_template_spec(prefill: Option<Seq<char>>) -> Seq<char> {
    match prefill {
        Some(m) => m + seq!['\n'] + editor_help(),
        None => seq!['\n'] + editor_help(),
    }
}

/// The lines of `ls` that are not comments (do not start with `#`).
pub open spec fn uncommented(ls: Seq<Seq<char>>) -> Seq<Seq<char>>
    decreases ls.len(),
{
    if ls.len() == 0 {
        Seq::empty()
    } else {
        let rest = uncommented(ls.drop_last());
        let l = ls.last();
        if l.len() > 0 && l[0] == '#' {
            rest
        } else {
            rest.push(l)
        }
    }
}

/// The lines of `ls` joined by newlines.
pub open spec fn joined(ls: Seq<Seq<char>>) -> Seq<char>
    decreases ls.len(),
{
    if ls.len() == 0 {
        Seq::empty()
    } else if ls.len() == 1 {
        ls[0]
    } else {
        joined(ls.drop_last()) + seq!['\n'] + ls.last()
    }
}

/// The message the editor left: its lines but comments, joined and trimmed;
/// nothing when that is empty.
pub open spec fn editor_message_spec(content: Seq<char>) -> Option<Seq<char>> {
    let m = trim_spec(joined(uncommented(lines_spec(content))));
    if m.len() == 0 {
        None
    } else {
        Some(m)
    }
}

/// The file handed to the editor (see `commit_template_spec`).
pub fn commit_template(prefill: Option<&str>) -> (r: String)
    ensures
        r@ == commit_template_spec(
            match prefill {
                Some(m) => Some(m@),
                None => None,
            },
        ),
{
    let mut s = String::new();
    match prefill {
        Some(m) => push_str(&mut s, m),
        None => {},
    }
    push_char(&mut s, '\n');
    push_str(&mut s, "# Please enter the commit message for your changes.");
    push_char(&mut s, '\n');
    push_str(&mut s, "# Lines starting with '#' will be ignored.");
    push_char(&mut s, '\n');
    push_str(&mut s, "# An empty message aborts the commit.");
    push_char(&mut s, '\n');
    assert(s@ =~= commit_template_spec(
        match prefill {
            Some(m) => Some(m@),
            None => None,
        },
    ));
    s
}

/// The commit message the editor left in `content` (see `editor_message_spec`).
pub fn commit_message_from_editor(content: &str) -> (r: Option<String>)
    ensures
        match r {
            Some(m) => editor_message_spec(content@) == Some(m@),
            None => editor_message_spec(content@) is None,
        },
{
    let cs = chars_of(content);
    let bs = line_bounds(&cs);
    let ghost ls = lines_spec(cs@);
    let mut kept: Vec<char> = Vec::new();
    let mut any = false;
    let mut k: usize = 0;
    while k < bs.len()
        invariant
            k <= bs@.len(),
            forall|j: int| 0 <= j < bs@.len() ==> #[trigger] bs@[j].0 <= bs@[j].1 <= cs@.len(),
            cut(cs@, bs@) == ls,
            ls == lines_spec(cs@),
            kept@ == joined(uncommented(ls.take(k as int))),
            any == (uncommented(ls.take(k as int)).len() > 0),
        decreases bs@.len() - k,
    {
        let (a, b) = bs[k];
        let ghost l = cs@.subrange(a as int, b as int);
        assert(ls[k as int] == l);
        assert(ls.take(k + 1).drop_last() =~= ls.take(k as int));
        assert(ls.take(k + 1).last() == l);
        let comment = a < b && cs[a] == '#';
        assert(comment == (l.len() > 0 && l[0] == '#'));
        if !comment {
            let ghost before = kept@;
            let ghost u = uncommented(ls.take(k as int));
            if any {
                kept.push('\n');
            }
            let mut i = a;
            while i < b
                invariant
                    a <= i <= b <= cs@.len(),
                    kept@ == (if any { before + seq!['\n'] } else { before }) + cs@.subrange(a as int, i as int),
                decreases b - i,
            {
                kept.push(cs[i]);
                i = i + 1;
                assert(kept@ =~= (if any { before + seq!['\n'] } else { before }) + cs@.subrange(a as int, i as int));
            }
            proof {
                let u2 = u.push(l);
                assert(u2.drop_last() =~= u);
                if u.len() == 0 {
                    assert(before =~= Seq::<char>::empty());
                    assert(kept@ =~= joined(u2));
                } else {
                    assert(kept@ =~= joined(u2));
                }
            }
            any = true;
        }
        k = k + 1;
    }
    assert(ls.take(bs@.len() as int) =~= ls);
    let (ta, tb) = trim_bounds(&kept, 0, kept.len());
    assert(kept@.subrange(0, kept@.len() as int) =~= kept@);
    if ta == tb {
        None
    } else {
        Some(string_of(&kept, ta, tb))
    }
}

} // verus!
