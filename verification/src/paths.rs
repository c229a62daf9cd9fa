//! Unix paths as texts.

use crate::text::chars;
use vstd::prelude::*;

verus! {

/// The path `component`, taken from the directory `base`.
pub open spec fn join(base: Seq<char>, component: Seq<char>) -> Seq<char> {
    if component.len() > 0 && component[0] == '/' {
        component
    } else if base.len() == 0 || base.last() == '/' {
        base + component
    } else {
        base + "/"@ + component
    }
}

/// The number of characters before the components of a path: those of the root, or of a leading
/// current directory.
pub open spec fn start(path: Seq<char>) -> int {
    if path.len() > 0 && path[0] == '/' {
        1
    } else if path.len() > 0 && path[0] == '.' && (path.len() == 1 || path[1] == '/') {
        1
    } else {
        0
    }
}

/// Where the last component of a path begins, not before `from`.
pub open spec fn component(path: Seq<char>, from: int) -> int
    decreases path.len(),
{
    if path.len() <= from || path.len() == 0 {
        from
    } else if path.last() == '/' {
        path.len() as int
    } else {
        component(path.drop_last(), from)
    }
}

/// The length of a path without its last component, which begins at `at`.
pub open spec fn length_before(at: int, from: int) -> int {
    if at > from {
        at - 1
    } else {
        from
    }
}

/// The last component of a path begins in it.
pub proof fn lemma_component(path: Seq<char>, from: int)
    requires
        0 <= from <= path.len(),
    ensures
        from <= component(path, from) <= path.len(),
    decreases path.len(),
{
    if path.len() > from && path.last() != '/' {
        lemma_component(path.drop_last(), from);
    }
}

/// The path without trailing components that name no other place.
pub open spec fn without_tail(path: Seq<char>, from: int) -> Seq<char>
    decreases path.len(),
{
    if from < 0 || path.len() <= from {
        path
    } else {
        let at = component(path, from);
        let last = path.skip(at);
        if last.len() == 0 || last == seq!['.'] {
            proof {
                lemma_component(path, from);
            }
            without_tail(path.take(length_before(at, from)), from)
        } else {
            path
        }
    }
}

/// The directory that holds a path. A root has none, nor has the empty path.
pub open spec fn parent(path: Seq<char>) -> Option<Seq<char>> {
    let from = start(path);
    let body = without_tail(path, from);
    if body.len() > from {
        Some(without_tail(body.take(length_before(component(body, from), from)), from))
    } else if body.len() == 1 && body[0] != '/' {
        Some(seq![])
    } else {
        None
    }
}

/// Takes a path from a directory.
pub fn path_join(base: &str, component: &str) -> (r: String)
    ensures
        r@ == join(base@, component@),
{
    let from = chars::chars_of(base);
    let to = chars::chars_of(component);
    if to.len() > 0 && to[0] == '/' {
        component.to_owned()
    } else if from.len() == 0 || from[from.len() - 1] == '/' {
        chars::cat(base, component)
    } else {
        chars::cat3(base, "/", component)
    }
}

/// Where the last component of the first `len` characters begins.
fn component_at(path: &Vec<char>, len: usize, from: usize) -> (r: usize)
    requires
        from <= len <= path.len(),
    ensures
        r == component(path@.take(len as int), from as int),
        from <= r <= len,
{
    let mut at: usize = len;
    while at > from && path[at - 1] != '/'
        invariant
            from <= at <= len <= path.len(),
            component(path@.take(len as int), from as int) == component(
                path@.take(at as int),
                from as int,
            ),
        decreases at,
    {
        proof {
            assert(path@.take(at as int).drop_last() =~= path@.take(at - 1));
        }
        at -= 1;
    }
    at
}

/// The number of characters that are left without trailing components that name no other place.
fn tail_at(path: &Vec<char>, len: usize, from: usize) -> (r: usize)
    requires
        from <= len <= path.len(),
    ensures
        path@.take(r as int) == without_tail(path@.take(len as int), from as int),
        from <= r <= len,
{
    let mut end: usize = len;
    let ghost goal = without_tail(path@.take(len as int), from as int);
    loop
        invariant_except_break
            goal == without_tail(path@.take(end as int), from as int),
        invariant
            from <= end <= len <= path.len(),
        ensures
            path@.take(end as int) == goal,
        decreases end,
    {
        if end <= from {
            break;
        }
        let at: usize = component_at(path, end, from);
        let ghost whole = path@.take(end as int);
        let ghost last = whole.skip(at as int);
        if at == end || (end - at == 1 && path[at] == '.') {
            let left: usize = if at > from {
                at - 1
            } else {
                from
            };
            proof {
                if at < end {
                    assert(last =~= seq!['.']);
                }
                assert(whole.take(left as int) =~= path@.take(left as int));
            }
            end = left;
        } else {
            proof {
                assert(last.len() == end - at);
                assert(last != seq!['.']) by {
                    assert(last[0] == path@[at as int]);
                }
                assert(without_tail(whole, from as int) == whole);
            }
            break;
        }
    }
    end
}

/// The directory that holds a path.
pub fn path_parent(path: &str) -> (r: Option<String>)
    ensures
        chars::opt_text(r) == parent(path@),
{
    let cs = chars::chars_of(path);
    let from: usize = if cs.len() > 0 && (cs[0] == '/' || (cs[0] == '.' && (cs.len() == 1 || cs[1]
        == '/'))) {
        1
    } else {
        0
    };
    proof {
        assert(cs@.take(cs@.len() as int) =~= cs@);
        assert(from == start(path@));
    }
    let end: usize = tail_at(&cs, cs.len(), from);
    let ghost body = cs@.take(end as int);
    if end > from {
        let at: usize = component_at(&cs, end, from);
        let left: usize = if at > from {
            at - 1
        } else {
            from
        };
        proof {
            assert(body.take(left as int) =~= cs@.take(left as int));
        }
        let rest: usize = tail_at(&cs, left, from);
        let r = chars::text_of(&cs, 0, rest);
        proof {
            assert(r@ =~= cs@.take(rest as int));
        }
        Some(r)
    } else if end == 1 && cs[0] != '/' {
        Some(String::new())
    } else {
        None
    }
}

/// A path from the root is taken as it is; any other is taken from the directory, with one slash
/// between them.
pub proof fn path_is_taken_from_its_directory(base: Seq<char>, name: Seq<char>)
    ensures
        name.len() > 0 && name[0] == '/' ==> join(base, name) == name,
        !(name.len() > 0 && name[0] == '/') ==> {
            &&& base.len() == 0 ==> join(base, name) == name
            &&& base.len() > 0 && base.last() == '/' ==> join(base, name) == base + name
            &&& base.len() > 0 && base.last() != '/' ==> join(base, name) == base + seq!['/'] + name
        },
{
    reveal_strlit("/");
    assert("/"@ =~= seq!['/']);
    if base.len() == 0 {
        assert(base + name =~= name);
    }
}

/// A name of one component that is not the directory itself.
pub open spec fn entry(name: Seq<char>) -> bool {
    &&& name.len() > 0
    &&& name != seq!['.']
    &&& forall|i: int| 0 <= i < name.len() ==> #[trigger] name[i] != '/'
}

/// A directory, other than the root, that is written without a slash or a current directory at
/// its end.
pub open spec fn directory(dir: Seq<char>) -> bool {
    &&& dir.len() > 0
    &&& dir.last() != '/'
    &&& !(dir.last() == '.' && (dir.len() == 1 || dir[dir.len() - 2] == '/'))
}

proof fn lemma_component_at(path: Seq<char>, from: int, at: int)
    requires
        0 <= from < at <= path.len(),
        path[at - 1] == '/',
        forall|i: int| at <= i < path.len() ==> #[trigger] path[i] != '/',
    ensures
        component(path, from) == at,
    decreases path.len(),
{
    if path.len() > at {
        let d = path.drop_last();
        assert forall|i: int| at <= i < d.len() implies #[trigger] d[i] != '/' by {
            assert(d[i] == path[i]);
        }
        assert(path[path.len() - 1] != '/');
        lemma_component_at(d, from, at);
    }
}

proof fn lemma_behind_slash(path: Seq<char>, from: int)
    requires
        0 <= from <= path.len(),
    ensures
        component(path, from) > from ==> path[component(path, from) - 1] == '/',
    decreases path.len(),
{
    if path.len() > from && path.last() != '/' {
        lemma_behind_slash(path.drop_last(), from);
        lemma_component(path.drop_last(), from);
    }
}

/// A directory holds what is taken from it, and the root what stands in it.
pub proof fn directory_holds_its_entries(dir: Seq<char>, name: Seq<char>)
    requires
        entry(name),
    ensures
        directory(dir) ==> parent(join(dir, name)) == Some(dir),
        parent(join(seq!['/'], name)) == Some(seq!['/']),
{
    reveal_strlit("/");
    assert(name[0] != '/');
    let root = seq!['/'];
    let top = root + name;
    assert(join(root, name) == top);
    assert(component(top, 1) == 1) by {
        lemma_no_slash(top);
    }
    assert(top.skip(1) =~= name);
    assert(top.take(1) =~= root);
    if directory(dir) {
        let path = dir + "/"@ + name;
        assert(join(dir, name) == path);
        let from = start(dir);
        assert(path[0] == dir[0]);
        if dir.len() > 1 {
            assert(path[1] == dir[1]);
        }
        assert(start(path) == from);
        let at = 1int + dir.len();
        assert forall|i: int| at <= i < path.len() implies #[trigger] path[i] != '/' by {
            assert(path[i] == name[i - at]);
        }
        lemma_component_at(path, from, at);
        assert(path.skip(at) =~= name);
        assert(path.take(dir.len() as int) =~= dir);
        lemma_component(dir, from);
        lemma_behind_slash(dir, from);
        if dir.len() > from {
            lemma_component(dir.drop_last(), from);
            let k = component(dir, from);
            let last = dir.skip(k);
            assert(k < dir.len());
            if last == seq!['.'] {
                assert(last.len() == 1);
                assert(last[0] == dir[k]);
                assert(k == dir.len() - 1);
            }
            assert(without_tail(dir, from) == dir);
        }
    }
}

proof fn lemma_no_slash(path: Seq<char>)
    requires
        path.len() >= 1,
        forall|i: int| 1 <= i < path.len() ==> #[trigger] path[i] != '/',
    ensures
        component(path, 1) == 1,
    decreases path.len(),
{
    if path.len() > 1 {
        let d = path.drop_last();
        assert forall|i: int| 1 <= i < d.len() implies #[trigger] d[i] != '/' by {
            assert(d[i] == path[i]);
        }
        assert(path[path.len() - 1] != '/');
        lemma_no_slash(d);
    }
}

/// The root is in no directory, nor is the empty path; a name alone is in the current one.
pub proof fn root_is_in_no_directory(name: Seq<char>)
    requires
        entry(name),
    ensures
        parent(seq!['/']) is None,
        parent(seq![]) is None,
        parent(name) == Some(Seq::<char>::empty()),
{
    assert(name[0] != '/');
    if name.len() > 1 {
        assert(name[1] != '/');
    }
    if name[0] == '.' && name.len() == 1 {
        assert(name =~= seq!['.']);
    }
    assert(start(name) == 0);
    lemma_no_slash_at_all(name);
    assert(name.skip(0) =~= name);
    assert(name.take(0) =~= seq![]);
}

proof fn lemma_no_slash_at_all(path: Seq<char>)
    requires
        forall|i: int| 0 <= i < path.len() ==> #[trigger] path[i] != '/',
    ensures
        component(path, 0) == 0,
    decreases path.len(),
{
    if path.len() > 0 {
        let d = path.drop_last();
        assert forall|i: int| 0 <= i < d.len() implies #[trigger] d[i] != '/' by {
            assert(d[i] == path[i]);
        }
        assert(path[path.len() - 1] != '/');
        lemma_no_slash_at_all(d);
    }
}

} // verus!
