use vstd::prelude::*;
use vstd::string::StrSliceExecFns;
use vstd::string::StringExecFns;

use crate::tab::Tab;
use crate::text::strings_view;

verus! {

/// The line prefix a todo item is saved under.
pub open spec fn spec_todo_prefix() -> Seq<char> {
    "TODO: "@
}

/// The line prefix a done item is saved under.
pub open spec fn spec_done_prefix() -> Seq<char> {
    "DONE: "@
}

pub fn todo_prefix() -> (r: &'static str)
    ensures
        r@ == spec_todo_prefix(),
{
    "TODO: "
}

pub fn done_prefix() -> (r: &'static str)
    ensures
        r@ == spec_done_prefix(),
{
    "DONE: "
}

/// Why a saved file could not be read back: the line at this index
/// carries neither prefix.
#[derive(Clone, Copy, PartialEq, Eq, Structural, Debug)]
pub enum ParseError {
    MalformedLine(usize),
}

/// One stored line read back: which list it belongs to and its text,
/// or nothing if it carries neither prefix.
pub open spec fn spec_parse_line(line: Seq<char>) -> Option<(Tab, Seq<char>)> {
    if spec_todo_prefix().is_prefix_of(line) {
        Some((Tab::Todos, line.subrange(spec_todo_prefix().len() as int, line.len() as int)))
    } else if spec_done_prefix().is_prefix_of(line) {
        Some((Tab::Dones, line.subrange(spec_done_prefix().len() as int, line.len() as int)))
    } else {
        None
    }
}

/// A whole file read back, line by line in order: the two lists, or
/// nothing as soon as one line is malformed.
pub open spec fn spec_parse_lines(lines: Seq<Seq<char>>) -> Option<
    (Seq<Seq<char>>, Seq<Seq<char>>),
>
    decreases lines.len(),
{
    if lines.len() == 0 {
        Some((Seq::empty(), Seq::empty()))
    } else {
        match spec_parse_lines(lines.drop_last()) {
            None => None,
            Some((ts, ds)) => match spec_parse_line(lines.last()) {
                None => None,
                Some((tab, text)) => if tab is Todos {
                    Some((ts.push(text), ds))
                } else {
                    Some((ts, ds.push(text)))
                },
            },
        }
    }
}

/// The lines a document is saved as: every todo line in order, each
/// under the todo prefix, then every done line in order under the done
/// prefix.
pub open spec fn spec_render_lines(ts: Seq<Seq<char>>, ds: Seq<Seq<char>>) -> Seq<Seq<char>> {
    ts.map_values(|t: Seq<char>| spec_todo_prefix() + t) + ds.map_values(
        |d: Seq<char>| spec_done_prefix() + d,
    )
}

/// Whether `p` is a prefix of `s`, character by character.
pub fn str_starts_with(s: &str, p: &str) -> (b: bool)
    ensures
        b == p@.is_prefix_of(s@),
{
    let sn = s.unicode_len();
    let pn = p.unicode_len();
    if pn > sn {
        return false;
    }
    let mut j: usize = 0;
    while j < pn
        invariant
            j <= pn,
            pn <= sn,
            pn as nat == p@.len(),
            sn as nat == s@.len(),
            forall|k: int| 0 <= k < j ==> p@[k] == s@[k],
        decreases pn - j,
    {
        if s.get_char(j) != p.get_char(j) {
            assert(!p@.is_prefix_of(s@)) by {
                assert(s@.subrange(0, pn as int)[j as int] == s@[j as int]);
            }
            return false;
        }
        j = j + 1;
    }
    assert(p@ =~= s@.subrange(0, pn as int));
    true
}

/// Reads a saved document back from its lines, in order. Every line
/// must carry one of the two prefixes; the first line that carries
/// neither is reported by its index and nothing is returned.
pub fn parse_lines(lines: &Vec<String>) -> (r: Result<
    (Vec<String>, Vec<String>),
    ParseError,
>)
    ensures
        match r {
            Ok((t, d)) => spec_parse_lines(strings_view(lines@)) == Some(
                (strings_view(t@), strings_view(d@)),
            ),
            Err(e) => {
                &&& spec_parse_lines(strings_view(lines@)) is None
                &&& e matches ParseError::MalformedLine(i) && 0 <= i < lines@.len()
                    && spec_parse_line(lines@[i as int]@) is None && (forall|j: int|
                    0 <= j < i ==> spec_parse_line(#[trigger] lines@[j]@) is Some)
            },
        },
{
    let ghost lv = strings_view(lines@);
    let mut todos: Vec<String> = Vec::new();
    let mut dones: Vec<String> = Vec::new();
    let n = lines.len();
    let mut i: usize = 0;
    while i < n
        invariant
            i <= n,
            n as nat == lines@.len(),
            lv == strings_view(lines@),
            spec_parse_lines(lv.subrange(0, i as int)) == Some(
                (strings_view(todos@), strings_view(dones@)),
            ),
            forall|j: int| 0 <= j < i ==> spec_parse_line(#[trigger] lines@[j]@) is Some,
        decreases n - i,
    {
        let line = &lines[i];
        let sn = line.as_str().unicode_len();
        let ghost prev = lv.subrange(0, i as int);
        proof {
            assert(lv.subrange(0, i as int + 1).drop_last() =~= prev);
            assert(lv.subrange(0, i as int + 1).last() == line@);
        }
        if str_starts_with(line.as_str(), todo_prefix()) {
            let text = line.as_str().substring_char(todo_prefix().unicode_len(), sn);
            let owned = String::from_str(text);
            let ghost gowned: String = owned;
            todos.push(owned);
            proof {
                crate::text::lemma_strings_view_push(todos@.drop_last(), gowned);
                assert(strings_view(todos@) =~= strings_view(todos@.drop_last()).push(text@));
            }
        } else if str_starts_with(line.as_str(), done_prefix()) {
            let text = line.as_str().substring_char(done_prefix().unicode_len(), sn);
            let owned = String::from_str(text);
            let ghost gowned: String = owned;
            dones.push(owned);
            proof {
                crate::text::lemma_strings_view_push(dones@.drop_last(), gowned);
                assert(strings_view(dones@) =~= strings_view(dones@.drop_last()).push(text@));
            }
        } else {
            proof {
                lemma_parse_none_propagates(lv, i as int);
            }
            return Err(ParseError::MalformedLine(i));
        }
        i = i + 1;
    }
    proof {
        assert(lv.subrange(0, n as int) =~= lv);
    }
    Ok((todos, dones))
}

/// Once one line is malformed, the whole file is.
proof fn lemma_parse_none_propagates(lines: Seq<Seq<char>>, i: int)
    requires
        0 <= i < lines.len(),
        spec_parse_line(lines[i]) is None,
    ensures
        spec_parse_lines(lines) is None,
    decreases lines.len(),
{
    if lines.len() > 0 {
        if i == lines.len() - 1 {
            assert(lines.last() == lines[i]);
        } else {
            assert(lines.drop_last()[i] == lines[i]);
            lemma_parse_none_propagates(lines.drop_last(), i);
        }
    }
}

/// Writes the document out as lines: all todo items in order under
/// the todo prefix, then all done items in order under the done
/// prefix.
pub fn serialize_lines(todos: &Vec<String>, dones: &Vec<String>) -> (r: Vec<String>)
    ensures
        strings_view(r@) == spec_render_lines(strings_view(todos@), strings_view(dones@)),
{
    let ghost ts = strings_view(todos@);
    let ghost ds = strings_view(dones@);
    let mut out: Vec<String> = Vec::new();
    let mut i: usize = 0;
    let n = todos.len();
    while i < n
        invariant
            i <= n,
            n as nat == todos@.len(),
            ts == strings_view(todos@),
            strings_view(out@) =~= ts.subrange(0, i as int).map_values(
                |t: Seq<char>| spec_todo_prefix() + t,
            ),
        decreases n - i,
    {
        let ghost before = strings_view(out@);
        let mut line = String::from_str(todo_prefix());
        line.append(todos[i].as_str());
        let ghost gline: String = line;
        out.push(line);
        proof {
            crate::text::lemma_strings_view_push(out@.drop_last(), gline);
            assert(strings_view(out@) =~= before.push(spec_todo_prefix() + ts[i as int]));
            assert(ts.subrange(0, i as int + 1).map_values(
                |t: Seq<char>| spec_todo_prefix() + t,
            ) =~= before.push(spec_todo_prefix() + ts[i as int]));
        }
        i = i + 1;
    }
    proof {
        assert(ts.subrange(0, n as int) =~= ts);
    }
    let mut k: usize = 0;
    let m = dones.len();
    while k < m
        invariant
            k <= m,
            m as nat == dones@.len(),
            ds == strings_view(dones@),
            strings_view(out@) =~= ts.map_values(|t: Seq<char>| spec_todo_prefix() + t)
                + ds.subrange(0, k as int).map_values(|d: Seq<char>| spec_done_prefix() + d),
        decreases m - k,
    {
        let ghost before = strings_view(out@);
        let mut line = String::from_str(done_prefix());
        line.append(dones[k].as_str());
        let ghost gline: String = line;
        out.push(line);
        proof {
            crate::text::lemma_strings_view_push(out@.drop_last(), gline);
            assert(strings_view(out@) =~= before.push(spec_done_prefix() + ds[k as int]));
            assert(ts.map_values(|t: Seq<char>| spec_todo_prefix() + t) + ds.subrange(
                0,
                k as int + 1,
            ).map_values(|d: Seq<char>| spec_done_prefix() + d) =~= before.push(
                spec_done_prefix() + ds[k as int],
            ));
        }
        k = k + 1;
    }
    proof {
        assert(ds.subrange(0, m as int) =~= ds);
        assert(strings_view(out@) =~= spec_render_lines(ts, ds));
    }
    out
}

/// A line saved under the todo prefix reads back as that todo item.
proof fn lemma_parse_todo_line(t: Seq<char>)
    ensures
        spec_parse_line(spec_todo_prefix() + t) == Some((Tab::Todos, t)),
{
    reveal_strlit("TODO: ");
    let line = spec_todo_prefix() + t;
    assert(spec_todo_prefix() =~= line.subrange(0, spec_todo_prefix().len() as int));
    assert(line.subrange(spec_todo_prefix().len() as int, line.len() as int) =~= t);
}

/// A line saved under the done prefix reads back as that done item:
/// the two prefixes differ in their first character, so it cannot be
/// mistaken for a todo line.
proof fn lemma_parse_done_line(d: Seq<char>)
    ensures
        spec_parse_line(spec_done_prefix() + d) == Some((Tab::Dones, d)),
{
    reveal_strlit("TODO: ");
    reveal_strlit("DONE: ");
    let line = spec_done_prefix() + d;
    assert(line[0] == 'D');
    if spec_todo_prefix().is_prefix_of(line) {
        assert(line.subrange(0, spec_todo_prefix().len() as int)[0] == line[0]);
        assert(false);
    }
    assert(spec_done_prefix() =~= line.subrange(0, spec_done_prefix().len() as int));
    assert(line.subrange(spec_done_prefix().len() as int, line.len() as int) =~= d);
}

/// Law: a saved document reads back exactly, both lists in the same
/// order with the same text, whatever they hold.
pub proof fn lemma_save_load_round_trip(ts: Seq<Seq<char>>, ds: Seq<Seq<char>>)
    ensures
        spec_parse_lines(spec_render_lines(ts, ds)) == Some((ts, ds)),
    decreases ts.len() + ds.len(),
{
    let tf = |t: Seq<char>| spec_todo_prefix() + t;
    let df = |d: Seq<char>| spec_done_prefix() + d;
    let lines = spec_render_lines(ts, ds);
    if ds.len() > 0 {
        assert(lines.last() == df(ds.last()));
        assert(lines.drop_last() =~= spec_render_lines(ts, ds.drop_last())) by {
            assert(ds.drop_last().map_values(df) =~= ds.map_values(df).drop_last());
        }
        lemma_save_load_round_trip(ts, ds.drop_last());
        lemma_parse_done_line(ds.last());
        assert(ds.drop_last().push(ds.last()) =~= ds);
    } else if ts.len() > 0 {
        assert(ds.map_values(df) =~= Seq::<Seq<char>>::empty());
        assert(lines =~= ts.map_values(tf));
        assert(lines.last() == tf(ts.last()));
        assert(lines.drop_last() =~= spec_render_lines(ts.drop_last(), ds)) by {
            assert(ts.drop_last().map_values(tf) =~= ts.map_values(tf).drop_last());
        }
        lemma_save_load_round_trip(ts.drop_last(), ds);
        lemma_parse_todo_line(ts.last());
        assert(ts.drop_last().push(ts.last()) =~= ts);
    } else {
        assert(lines =~= Seq::<Seq<char>>::empty());
        assert(ts =~= Seq::<Seq<char>>::empty());
        assert(ds =~= Seq::<Seq<char>>::empty());
    }
}

} // verus!
