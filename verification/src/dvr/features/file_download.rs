//! File download from the upload directory (`/files/download?name=<file>`).
//!
//! The handlers report the resolved path the service would read.

use vstd::prelude::*;
use crate::dvr::{or_default, App, Request, Response};
use crate::text::{
    chars_eq, chars_of, extend_chars, owned, push_str, split, split_keyed_chars, starts_with,
    starts_with_chars, string_of,
};

verus! {

/// `base.join(name)` for Unix paths: an absolute `name` replaces `base`;
/// otherwise a separator is added when `base` is non-empty and does not end
/// with one.
pub open spec fn path_join(base: Seq<char>, name: Seq<char>) -> Seq<char> {
    if starts_with(name, "/"@) {
        name
    } else if base.len() > 0 && base.last() != '/' {
        base + "/"@ + name
    } else {
        base + name
    }
}

/// The `/`-separated segments of `p` that `Path::components` yields as named
/// or parent components (empty segments and `.` are skipped).
pub open spec fn named_parts(segs: Seq<Seq<char>>) -> Seq<Seq<char>>
    decreases segs.len(),
{
    if segs.len() == 0 {
        seq![]
    } else {
        let rest = named_parts(segs.drop_last());
        if segs.last().len() == 0 || segs.last() == "."@ {
            rest
        } else {
            rest.push(segs.last())
        }
    }
}

/// `Path::components` of a Unix path, each component by its text: `"/"` for
/// the root, `"."` for a leading current-directory component, `".."` for a
/// parent component, else the name.
pub open spec fn components(p: Seq<char>) -> Seq<Seq<char>> {
    let head: Seq<Seq<char>> = if starts_with(p, "/"@) {
        seq!["/"@]
    } else if p == "."@ || starts_with(p, "./"@) {
        seq!["."@]
    } else {
        seq![]
    };
    head + named_parts(split(p, "/"@))
}

/// The name a request asks for (empty when absent).
pub open spec fn requested_name(req: &Request) -> Seq<char> {
    or_default(req.query_spec("name"@), seq![])
}

/// The fixed handler refuses the name: absolute, or with a parent component.
pub open spec fn name_rejected(name: Seq<char>) -> bool {
    starts_with(name, "/"@) || components(name).contains(".."@)
}

/// `Path::starts_with`: the components of `base` are a prefix of those of `p`.
pub open spec fn path_starts_with(p: Seq<char>, base: Seq<char>) -> bool {
    let cp = components(p);
    let cb = components(base);
    cb.len() <= cp.len() && cp.take(cb.len() as int) == cb
}

fn name_of<'a>(req: &'a Request) -> (r: &'a str)
    ensures
        r@ == requested_name(req),
{
    match req.query_get("name") {
        Some(v) => v,
        None => {
            proof {
                reveal_strlit("");
            }
            ""
        },
    }
}

/// Executable `path_join`.
pub fn join_path(base: &[char], name: &[char]) -> (r: Vec<char>)
    ensures
        r@ == path_join(base@, name@),
{
    proof {
        reveal_strlit("/");
        crate::text::lemma_starts_with_one(name@, '/');
        assert("/"@ =~= seq!['/']);
    }
    if name.len() > 0 && name[0] == '/' {
        assert(starts_with(name@, "/"@));
        return crate::text::slice_chars(name, 0, name.len());
    }
    assert(!starts_with(name@, "/"@));
    let mut out = crate::text::slice_chars(base, 0, base.len());
    if base.len() > 0 && base[base.len() - 1] != '/' {
        out.push('/');
    }
    extend_chars(&mut out, name);
    assert(out@ =~= path_join(base@, name@));
    out
}

/// Executable `components`.
pub fn path_components(p: &[char]) -> (r: Vec<Vec<char>>)
    ensures
        r@.map_values(|v: Vec<char>| v@) == components(p@),
{
    proof {
        reveal_strlit("/");
        reveal_strlit(".");
        reveal_strlit("./");
    }
    let slash = chars_of("/");
    let dot = chars_of(".");
    let dot_slash = chars_of("./");
    let mut out: Vec<Vec<char>> = Vec::new();
    if starts_with_chars(p, &slash) {
        out.push(chars_of("/"));
    } else if chars_eq(p, &dot) || starts_with_chars(p, &dot_slash) {
        out.push(chars_of("."));
    }
    let ghost head = out@.map_values(|v: Vec<char>| v@);
    let segs = split_keyed_chars(p, p, &slash, 0);
    let ghost sv = segs@.map_values(|v: Vec<char>| v@);
    let mut i: usize = 0;
    while i < segs.len()
        invariant
            i <= segs@.len(),
            sv == segs@.map_values(|v: Vec<char>| v@),
            dot@ == "."@,
            out@.map_values(|v: Vec<char>| v@) == head + named_parts(sv.take(i as int)),
        decreases segs@.len() - i,
    {
        assert(sv.take(i + 1).drop_last() =~= sv.take(i as int));
        assert(sv[i as int] == segs@[i as int]@);
        if segs[i].len() > 0 && !chars_eq(&segs[i], &dot) {
            let ghost before = out@.map_values(|v: Vec<char>| v@);
            let seg = crate::text::slice_chars(&segs[i], 0, segs[i].len());
            assert(seg@ =~= segs@[i as int]@);
            out.push(seg);
            assert(out@.map_values(|v: Vec<char>| v@) =~= before.push(seg@));
        }
        i += 1;
    }
    assert(sv.take(segs@.len() as int) =~= sv);
    assert(head == (if starts_with(p@, "/"@) { seq!["/"@] } else if p@ == "."@ || starts_with(p@, "./"@) {
        seq!["."@] } else { seq![] }));
    out
}

/// `serving: <path>`.
fn serving(path: &[char]) -> (r: Response)
    ensures
        r.status == 200,
        r.body@ == "serving: "@ + path@,
{
    let mut out = owned("serving: ");
    let p = string_of(path);
    push_str(&mut out, p.as_str());
    Response::ok(out)
}

/// What `handle` answers.
pub open spec fn answers(app: &App, req: &Request, r: Response) -> bool {
    &&& r.status == 200
    &&& r.body@ == "serving: "@ + path_join(app.config.upload_dir@, requested_name(req))
}

/// Serves the name joined onto the upload directory.
pub fn handle(app: &App, req: &Request) -> (r: Response)
    ensures
        answers(app, req, r),
{
    let name = chars_of(name_of(req));
    let base = chars_of(app.config.upload_dir.as_str());
    let full = join_path(&base, &name);
    serving(&full)
}

/// Whether the components hold a parent component.
fn has_parent(parts: &Vec<Vec<char>>) -> (r: bool)
    ensures
        r == parts@.map_values(|v: Vec<char>| v@).contains(".."@),
{
    let dd = chars_of("..");
    let ghost pv = parts@.map_values(|v: Vec<char>| v@);
    let mut i: usize = 0;
    while i < parts.len()
        invariant
            i <= parts@.len(),
            pv == parts@.map_values(|v: Vec<char>| v@),
            dd@ == ".."@,
            forall|k: int| 0 <= k < i ==> pv[k] != ".."@,
        decreases parts@.len() - i,
    {
        assert(pv[i as int] == parts@[i as int]@);
        if chars_eq(&parts[i], &dd) {
            return true;
        }
        i += 1;
    }
    false
}

/// Whether the components of `base` are a prefix of those of `p`.
pub fn path_starts_with_chars(p: &[char], base: &[char]) -> (r: bool)
    ensures
        r == path_starts_with(p@, base@),
{
    let cp = path_components(p);
    let cb = path_components(base);
    let ghost vp = cp@.map_values(|v: Vec<char>| v@);
    let ghost vb = cb@.map_values(|v: Vec<char>| v@);
    assert(vp.len() == cp@.len() && vb.len() == cb@.len());
    if cb.len() > cp.len() {
        return false;
    }
    let mut i: usize = 0;
    while i < cb.len()
        invariant
            cb@.len() <= cp@.len(),
            i <= cb@.len(),
            vp == cp@.map_values(|v: Vec<char>| v@),
            vb == cb@.map_values(|v: Vec<char>| v@),
            vp == components(p@),
            vb == components(base@),
            forall|k: int| 0 <= k < i ==> vp[k] == vb[k],
        decreases cb@.len() - i,
    {
        assert(vp[i as int] == cp@[i as int]@ && vb[i as int] == cb@[i as int]@);
        if !chars_eq(&cp[i], &cb[i]) {
            assert(vp.take(vb.len() as int)[i as int] != vb[i as int]);
            return false;
        }
        i += 1;
    }
    assert(vp.take(vb.len() as int) =~= vb);
    true
}

/// Refuses absolute names and names with a parent component; serves the
/// joined path when it stays under the upload directory.
pub fn fixed_handle(app: &App, req: &Request) -> (r: Response)
    ensures
        ({
            let name = requested_name(req);
            let full = path_join(app.config.upload_dir@, name);
            if name_rejected(name) || !path_starts_with(full, app.config.upload_dir@) {
                r.status == 400 && r.body@ == "invalid name"@
            } else {
                r.status == 200 && r.body@ == "serving: "@ + full
            }
        }),
{
    let name = chars_of(name_of(req));
    let base = chars_of(app.config.upload_dir.as_str());
    proof {
        reveal_strlit("/");
        crate::text::lemma_starts_with_one(name@, '/');
        assert("/"@ =~= seq!['/']);
    }
    let absolute = name.len() > 0 && name[0] == '/';
    assert(absolute == starts_with(name@, "/"@));
    let parts = path_components(&name);
    if absolute || has_parent(&parts) {
        return Response::err(400, owned("invalid name"));
    }
    let full = join_path(&base, &name);
    if !path_starts_with_chars(&full, &base) {
        return Response::err(400, owned("invalid name"));
    }
    serving(&full)
}

/// The named parts of two runs of segments are those of each, in order.
pub proof fn lemma_named_parts_concat(s1: Seq<Seq<char>>, s2: Seq<Seq<char>>)
    ensures
        named_parts(s1 + s2) == named_parts(s1) + named_parts(s2),
    decreases s2.len(),
{
    if s2.len() == 0 {
        assert(s1 + s2 =~= s1);
        assert(named_parts(s1) + named_parts(s2) =~= named_parts(s1));
    } else {
        assert((s1 + s2).drop_last() =~= s1 + s2.drop_last());
        assert((s1 + s2).last() == s2.last());
        lemma_named_parts_concat(s1, s2.drop_last());
        let rest = named_parts(s1) + named_parts(s2.drop_last());
        if !(s2.last().len() == 0 || s2.last() == "."@) {
            assert(rest.push(s2.last()) =~= named_parts(s1) + named_parts(s2.drop_last()).push(s2.last()));
        }
    }
}

/// The empty path has no components.
proof fn lemma_components_empty()
    ensures
        components(seq![]) == Seq::<Seq<char>>::empty(),
{
    reveal_strlit("/");
    reveal_strlit(".");
    reveal_strlit("./");
    assert("/"@ =~= seq!['/']);
    let e: Seq<char> = seq![];
    crate::text::lemma_find_one(e, '/', 0);
    let ss = split(e, "/"@);
    assert(ss =~= seq![e.subrange(0, 0)]);
    assert(ss.len() == 1 && ss.last().len() == 0);
    assert(ss.drop_last() =~= Seq::<Seq<char>>::empty());
    assert(named_parts(ss.drop_last()) =~= Seq::<Seq<char>>::empty());
    assert(named_parts(ss) == named_parts(ss.drop_last()));
    assert(e != "."@);
}

/// `"/"` is a one-character string.
proof fn lemma_slash()
    ensures
        "/"@ == seq!['/'],
        "./"@ == seq!['.', '/'],
        "."@ == seq!['.'],
{
    reveal_strlit("/");
    reveal_strlit("./");
    reveal_strlit(".");
    assert("/"@ =~= seq!['/']);
    assert("./"@ =~= seq!['.', '/']);
    assert("."@ =~= seq!['.']);
}

/// A path that starts `x` starts the same way when extended.
proof fn lemma_starts_with_extend(x: Seq<char>, y: Seq<char>, p: Seq<char>)
    requires
        p.len() <= x.len(),
    ensures
        starts_with(x + y, p) == starts_with(x, p),
{
    assert((x + y).subrange(0, p.len() as int) =~= x.subrange(0, p.len() as int));
}

/// Joining a relative name onto a base: the components of the base, then
/// those of the name, when the name has no leading `.` component.
pub proof fn lemma_join_components(base: Seq<char>, name: Seq<char>)
    requires
        !starts_with(name, "/"@),
        !(name == "."@ || starts_with(name, "./"@)),
    ensures
        components(path_join(base, name)) == components(base) + components(name),
{
    lemma_slash();
    let q = path_join(base, name);
    let head_name: Seq<Seq<char>> = seq![];
    assert(components(name) == head_name + named_parts(split(name, "/"@)));
    assert(head_name + named_parts(split(name, "/"@)) =~= named_parts(split(name, "/"@)));
    if base.len() == 0 {
        lemma_components_empty();
        assert(base =~= seq![]);
        assert(q =~= name);
        assert(components(base) + components(name) =~= components(name));
    } else {
        let a = if base.last() == '/' { base.drop_last() } else { base };
        let tail: Seq<char> = if base.last() == '/' { seq![] } else { seq!['/'] };
        assert(base + tail =~= a + seq!['/']);
        assert(q =~= a + seq!['/'] + name);
        crate::text::lemma_split_concat(a, name, '/');
        lemma_named_parts_concat(split(a, "/"@), split(name, "/"@));
        // the base's own components
        if base.last() == '/' {
            let e: Seq<char> = seq![];
            crate::text::lemma_split_concat(a, e, '/');
            assert(a + seq!['/'] + e =~= base);
            lemma_components_empty();
            assert(components(e) =~= named_parts(split(e, "/"@))) by {
                assert(!starts_with(e, "/"@));
                assert(e != "."@);
                assert(!starts_with(e, "./"@));
            }
            lemma_named_parts_concat(split(a, "/"@), split(e, "/"@));
            assert(named_parts(split(base, "/"@)) =~= named_parts(split(a, "/"@)));
        } else {
            assert(a =~= base);
        }
        // the leading component is decided by the base's first characters
        lemma_starts_with_extend(base, tail + name, "/"@);
        assert(q =~= base + (tail + name));
        if base.len() >= 2 {
            lemma_starts_with_extend(base, tail + name, "./"@);
        } else {
            assert(base.len() == 1);
            if base[0] == '.' {
                assert(base =~= "."@);
                assert(q.subrange(0, 2) =~= seq!['.', '/']);
            } else {
                assert(q[0] == base[0]);
                assert(!starts_with(q, "./"@)) by {
                    if q.len() >= 2 {
                        assert(q.subrange(0, 2)[0] == q[0]);
                    }
                }
                assert(base != "."@);
                assert(!starts_with(base, "./"@));
            }
        }
        assert(q != "."@) by {
            if q.len() == 1 {
                assert(tail.len() == 0);
                assert(q[0] == base[0] && base[0] == base.last());
            }
        }
        assert(components(q) =~= components(base) + components(name));
    }
}

} // verus!
