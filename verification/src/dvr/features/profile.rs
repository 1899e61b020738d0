//! Profile update (`/profile/update`, body = flat JSON object of fields).

use vstd::prelude::*;
use crate::dvr::{App, Request, Response};
use crate::text::{
    chars_eq, chars_of, find_from, find_from_chars, lemma_find_from, lossy_text, owned, push_str,
    slice_chars, string_of, trim, trim_chars, utf8_lossy,
};

verus! {

#[derive(Debug, Clone, PartialEq)]
pub struct Profile {
    pub display_name: String,
    pub bio: String,
    /// Privileged: not meant to be settable by a profile update.
    pub is_admin: bool,
    /// Privileged: not meant to be settable by a profile update.
    pub role: String,
}

/// A profile by the characters of its fields.
pub struct ProfileView {
    pub display_name: Seq<char>,
    pub bio: Seq<char>,
    pub is_admin: bool,
    pub role: Seq<char>,
}

impl Profile {
    /// The profile's fields.
    pub open spec fn view_fields(&self) -> ProfileView {
        ProfileView {
            display_name: self.display_name@,
            bio: self.bio@,
            is_admin: self.is_admin,
            role: self.role@,
        }
    }
}

impl Default for Profile {
    fn default() -> (r: Self)
        ensures
            r.display_name@ == "alice"@,
            r.bio@ == Seq::<char>::empty(),
            !r.is_admin,
            r.role@ == "user"@,
    {
        Profile {
            display_name: owned("alice"),
            bio: String::new(),
            is_admin: false,
            role: owned("user"),
        }
    }
}

/// `s` with one pair of surrounding double quotes removed (after trimming).
pub open spec fn unquote_spec(s: Seq<char>) -> Seq<char> {
    let t = trim(s);
    if t.len() >= 2 && t[0] == '"' && t.last() == '"' {
        t.subrange(1, t.len() - 1)
    } else {
        t
    }
}

/// State of the top-level comma split after reading `s`: finished parts,
/// the current part, and whether a string literal is open.
pub open spec fn split_state(s: Seq<char>) -> (Seq<Seq<char>>, Seq<char>, bool)
    decreases s.len(),
{
    if s.len() == 0 {
        (seq![], seq![], false)
    } else {
        let (parts, cur, in_str) = split_state(s.drop_last());
        let c = s.last();
        if c == '"' {
            (parts, cur.push(c), !in_str)
        } else if c == ',' && !in_str {
            (parts.push(cur), seq![], in_str)
        } else {
            (parts, cur.push(c), in_str)
        }
    }
}

/// Pieces of `s` between commas outside double-quoted strings; a last piece
/// that is only whitespace is dropped.
pub open spec fn split_top_level_spec(s: Seq<char>) -> Seq<Seq<char>> {
    let (parts, cur, _) = split_state(s);
    if trim(cur).len() > 0 {
        parts.push(cur)
    } else {
        parts
    }
}

/// The object's inside: the trimmed text without the surrounding braces,
/// or the trimmed text itself when it is not braced.
pub open spec fn object_inner(s: Seq<char>) -> Seq<char> {
    let t = trim(s);
    if t.len() >= 2 && t[0] == '{' && t.last() == '}' {
        t.subrange(1, t.len() - 1)
    } else {
        t
    }
}

/// One `key: value` piece as an unquoted pair.
pub open spec fn pair_of(piece: Seq<char>) -> (Seq<char>, Seq<char>) {
    match find_from(piece, ":"@, 0) {
        Some(p) => (
            unquote_spec(trim(piece.subrange(0, p))),
            unquote_spec(trim(piece.subrange(p + 1, piece.len() as int))),
        ),
        None => (unquote_spec(trim(piece)), unquote_spec(seq![])),
    }
}

/// The pairs with a non-empty key, in order.
pub open spec fn keyed_pairs(pieces: Seq<Seq<char>>) -> Seq<(Seq<char>, Seq<char>)>
    decreases pieces.len(),
{
    if pieces.len() == 0 {
        seq![]
    } else {
        let rest = keyed_pairs(pieces.drop_last());
        let kv = pair_of(pieces.last());
        if kv.0.len() > 0 {
            rest.push(kv)
        } else {
            rest
        }
    }
}

/// The (key, value) pairs of a flat JSON object.
pub open spec fn flat_json(s: Seq<char>) -> Seq<(Seq<char>, Seq<char>)> {
    keyed_pairs(split_top_level_spec(object_inner(s)))
}

/// Profile after one submitted field, every field settable.
pub open spec fn set_any(p: ProfileView, kv: (Seq<char>, Seq<char>)) -> ProfileView {
    if kv.0 == "display_name"@ {
        ProfileView { display_name: kv.1, ..p }
    } else if kv.0 == "bio"@ {
        ProfileView { bio: kv.1, ..p }
    } else if kv.0 == "is_admin"@ {
        ProfileView { is_admin: kv.1 == "true"@, ..p }
    } else if kv.0 == "role"@ {
        ProfileView { role: kv.1, ..p }
    } else {
        p
    }
}

/// Profile after one submitted field, only the allowed fields settable.
pub open spec fn set_allowed(p: ProfileView, kv: (Seq<char>, Seq<char>)) -> ProfileView {
    if kv.0 == "display_name"@ {
        ProfileView { display_name: kv.1, ..p }
    } else if kv.0 == "bio"@ {
        ProfileView { bio: kv.1, ..p }
    } else {
        p
    }
}

/// Profile after all submitted fields, in order, every field settable.
pub open spec fn apply_all(p: ProfileView, kvs: Seq<(Seq<char>, Seq<char>)>) -> ProfileView
    decreases kvs.len(),
{
    if kvs.len() == 0 {
        p
    } else {
        set_any(apply_all(p, kvs.drop_last()), kvs.last())
    }
}

/// Profile after all submitted fields, in order, only allowed fields settable.
pub open spec fn apply_allowed(p: ProfileView, kvs: Seq<(Seq<char>, Seq<char>)>) -> ProfileView
    decreases kvs.len(),
{
    if kvs.len() == 0 {
        p
    } else {
        set_allowed(apply_allowed(p, kvs.drop_last()), kvs.last())
    }
}

/// The allowed-fields update never touches the privileged fields.
pub proof fn lemma_apply_allowed_keeps_privileges(p: ProfileView, kvs: Seq<(Seq<char>, Seq<char>)>)
    ensures
        apply_allowed(p, kvs).is_admin == p.is_admin,
        apply_allowed(p, kvs).role == p.role,
    decreases kvs.len(),
{
    if kvs.len() > 0 {
        lemma_apply_allowed_keeps_privileges(p, kvs.drop_last());
    }
}

/// The value of the last pair with key `key`, if any.
pub open spec fn last_value(kvs: Seq<(Seq<char>, Seq<char>)>, key: Seq<char>) -> Option<Seq<char>>
    decreases kvs.len(),
{
    if kvs.len() == 0 {
        None
    } else if kvs.last().0 == key {
        Some(kvs.last().1)
    } else {
        last_value(kvs.drop_last(), key)
    }
}

/// The value a field takes: the last one given for its key, else the old one.
pub open spec fn last_or(kvs: Seq<(Seq<char>, Seq<char>)>, key: Seq<char>, old_value: Seq<char>) -> Seq<char> {
    match last_value(kvs, key) {
        Some(v) => v,
        None => old_value,
    }
}

/// An update with the allowed keys: `display_name` and `bio` take the value
/// of the last pair with their key, else keep theirs; every other key is
/// ignored.
pub proof fn lemma_apply_allowed_last_key_wins(p: ProfileView, kvs: Seq<(Seq<char>, Seq<char>)>)
    ensures
        apply_allowed(p, kvs) == (ProfileView {
            display_name: last_or(kvs, "display_name"@, p.display_name),
            bio: last_or(kvs, "bio"@, p.bio),
            is_admin: p.is_admin,
            role: p.role,
        }),
    decreases kvs.len(),
{
    if kvs.len() > 0 {
        lemma_apply_allowed_last_key_wins(p, kvs.drop_last());
        reveal_strlit("display_name");
        reveal_strlit("bio");
        assert("display_name"@ != "bio"@) by {
            assert("display_name"@.len() != "bio"@.len());
        }
    }
}

fn unquote(s: &Vec<char>) -> (r: Vec<char>)
    ensures
        r@ == unquote_spec(s@),
{
    let t = trim_chars(s);
    let n = t.len();
    if n >= 2 && t[0] == '"' && t[n - 1] == '"' {
        slice_chars(&t, 1, n - 1)
    } else {
        t
    }
}

fn split_top_level(inner: &Vec<char>) -> (r: Vec<Vec<char>>)
    ensures
        r@.map_values(|v: Vec<char>| v@) == split_top_level_spec(inner@),
{
    let mut parts: Vec<Vec<char>> = Vec::new();
    let mut cur: Vec<char> = Vec::new();
    let mut in_str = false;
    let mut i: usize = 0;
    while i < inner.len()
        invariant
            i <= inner@.len(),
            split_state(inner@.take(i as int)) == (parts@.map_values(|v: Vec<char>| v@), cur@, in_str),
        decreases inner@.len() - i,
    {
        let c = inner[i];
        assert(inner@.take(i + 1).drop_last() =~= inner@.take(i as int));
        let ghost before = parts@.map_values(|v: Vec<char>| v@);
        if c == '"' {
            in_str = !in_str;
            cur.push(c);
        } else if c == ',' && !in_str {
            let done = slice_chars(&cur, 0, cur.len());
            assert(done@ =~= cur@);
            parts.push(done);
            assert(parts@.map_values(|v: Vec<char>| v@) =~= before.push(cur@));
            cur = Vec::new();
        } else {
            cur.push(c);
        }
        i += 1;
    }
    assert(inner@.take(inner@.len() as int) =~= inner@);
    let t = trim_chars(&cur);
    if t.len() > 0 {
        let ghost before = parts@.map_values(|v: Vec<char>| v@);
        let ghost last = cur@;
        parts.push(cur);
        assert(parts@.map_values(|v: Vec<char>| v@) =~= before.push(last));
    }
    parts
}

fn object_inside(s: &Vec<char>) -> (r: Vec<char>)
    ensures
        r@ == object_inner(s@),
{
    let t = trim_chars(s);
    let n = t.len();
    if n >= 2 && t[0] == '{' && t[n - 1] == '}' {
        slice_chars(&t, 1, n - 1)
    } else {
        t
    }
}

/// Parse a flat JSON object into (key, value) pairs.
fn parse_flat_json(s: &Vec<char>) -> (r: Vec<(Vec<char>, Vec<char>)>)
    ensures
        r@.map_values(|kv: (Vec<char>, Vec<char>)| (kv.0@, kv.1@)) == flat_json(s@),
{
    let inner = object_inside(s);
    let pieces = split_top_level(&inner);
    let ghost pv = pieces@.map_values(|v: Vec<char>| v@);
    let colon = chars_of(":");
    proof {
        reveal_strlit(":");
    }
    let mut out: Vec<(Vec<char>, Vec<char>)> = Vec::new();
    let mut i: usize = 0;
    while i < pieces.len()
        invariant
            i <= pieces@.len(),
            pv == pieces@.map_values(|v: Vec<char>| v@),
            colon@ == ":"@,
            colon@.len() == 1,
            out@.map_values(|kv: (Vec<char>, Vec<char>)| (kv.0@, kv.1@)) == keyed_pairs(pv.take(i as int)),
        decreases pieces@.len() - i,
    {
        let piece = &pieces[i];
        assert(pv[i as int] == piece@);
        assert(pv.take(i + 1).drop_last() =~= pv.take(i as int));
        let (k, v) = match find_from_chars(piece, &colon, 0) {
            Some(p) => {
                proof {
                    lemma_find_from(piece@, colon@, 0);
                }
                let pn = piece.len();
                let k = unquote(&trim_chars(&slice_chars(piece, 0, p)));
                let v = unquote(&trim_chars(&slice_chars(piece, p + 1, pn)));
                (k, v)
            },
            None => {
                let k = unquote(&trim_chars(piece));
                let empty: Vec<char> = Vec::new();
                let v = unquote(&empty);
                assert(empty@ =~= seq![]);
                (k, v)
            },
        };
        assert((k@, v@) == pair_of(piece@));
        if k.len() > 0 {
            let ghost before = out@.map_values(|kv: (Vec<char>, Vec<char>)| (kv.0@, kv.1@));
            let ghost kvv = (k@, v@);
            out.push((k, v));
            assert(out@.map_values(|kv: (Vec<char>, Vec<char>)| (kv.0@, kv.1@)) =~= before.push(kvv));
        }
        i += 1;
    }
    assert(pv.take(pieces@.len() as int) =~= pv);
    out
}

/// Apply every submitted field to the profile by name, including the
/// privileged ones.
pub fn apply(profile: &mut Profile, body: &str)
    ensures
        final(profile).view_fields() == apply_all(old(profile).view_fields(), flat_json(body@)),
{
    let pairs = parse_flat_json(&chars_of(body));
    let ghost kvs = pairs@.map_values(|kv: (Vec<char>, Vec<char>)| (kv.0@, kv.1@));
    let name_key = chars_of("display_name");
    let bio_key = chars_of("bio");
    let admin_key = chars_of("is_admin");
    let role_key = chars_of("role");
    let true_word = chars_of("true");
    let mut i: usize = 0;
    while i < pairs.len()
        invariant
            i <= pairs@.len(),
            kvs == pairs@.map_values(|kv: (Vec<char>, Vec<char>)| (kv.0@, kv.1@)),
            kvs == flat_json(body@),
            name_key@ == "display_name"@,
            bio_key@ == "bio"@,
            admin_key@ == "is_admin"@,
            role_key@ == "role"@,
            true_word@ == "true"@,
            profile.view_fields() == apply_all(old(profile).view_fields(), kvs.take(i as int)),
        decreases pairs@.len() - i,
    {
        let key = &pairs[i].0;
        let val = &pairs[i].1;
        assert(kvs[i as int] == (key@, val@));
        assert(kvs.take(i + 1).drop_last() =~= kvs.take(i as int));
        if chars_eq(key, &name_key) {
            profile.display_name = string_of(val);
        } else if chars_eq(key, &bio_key) {
            profile.bio = string_of(val);
        } else if chars_eq(key, &admin_key) {
            profile.is_admin = chars_eq(val, &true_word);
        } else if chars_eq(key, &role_key) {
            profile.role = string_of(val);
        }
        i += 1;
    }
    assert(kvs.take(pairs@.len() as int) =~= kvs);
}

/// Apply only the fields a user may change; the privileged fields are never
/// read from the request.
pub fn apply_fixed(profile: &mut Profile, body: &str)
    ensures
        final(profile).view_fields() == apply_allowed(old(profile).view_fields(), flat_json(body@)),
        final(profile).is_admin == old(profile).is_admin,
        final(profile).role@ == old(profile).role@,
        final(profile).display_name@ == last_or(flat_json(body@), "display_name"@, old(profile).display_name@),
        final(profile).bio@ == last_or(flat_json(body@), "bio"@, old(profile).bio@),
{
    let pairs = parse_flat_json(&chars_of(body));
    let ghost kvs = pairs@.map_values(|kv: (Vec<char>, Vec<char>)| (kv.0@, kv.1@));
    let name_key = chars_of("display_name");
    let bio_key = chars_of("bio");
    let mut i: usize = 0;
    while i < pairs.len()
        invariant
            i <= pairs@.len(),
            kvs == pairs@.map_values(|kv: (Vec<char>, Vec<char>)| (kv.0@, kv.1@)),
            kvs == flat_json(body@),
            name_key@ == "display_name"@,
            bio_key@ == "bio"@,
            profile.view_fields() == apply_allowed(old(profile).view_fields(), kvs.take(i as int)),
        decreases pairs@.len() - i,
    {
        let key = &pairs[i].0;
        let val = &pairs[i].1;
        assert(kvs[i as int] == (key@, val@));
        assert(kvs.take(i + 1).drop_last() =~= kvs.take(i as int));
        if chars_eq(key, &name_key) {
            profile.display_name = string_of(val);
        } else if chars_eq(key, &bio_key) {
            profile.bio = string_of(val);
        }
        i += 1;
    }
    assert(kvs.take(pairs@.len() as int) =~= kvs);
    proof {
        lemma_apply_allowed_keeps_privileges(old(profile).view_fields(), kvs);
        lemma_apply_allowed_last_key_wins(old(profile).view_fields(), kvs);
    }
}

/// The fields of the default profile.
pub open spec fn default_fields() -> ProfileView {
    ProfileView { display_name: "alice"@, bio: seq![], is_admin: false, role: "user"@ }
}

/// `updated: name=<n> role=<r> admin=<true|false>`.
pub open spec fn update_report(p: ProfileView) -> Seq<char> {
    "updated: name="@ + p.display_name + " role="@ + p.role + " admin="@ + (if p.is_admin {
        "true"@
    } else {
        "false"@
    })
}

fn report(profile: &Profile) -> (r: Response)
    ensures
        r.status == 200,
        r.body@ == update_report(profile.view_fields()),
{
    let mut out = owned("updated: name=");
    push_str(&mut out, profile.display_name.as_str());
    push_str(&mut out, " role=");
    push_str(&mut out, profile.role.as_str());
    push_str(&mut out, " admin=");
    push_str(&mut out, if profile.is_admin { "true" } else { "false" });
    Response::ok(out)
}

/// What `handle` answers.
pub open spec fn answers(app: &App, req: &Request, r: Response) -> bool {
    &&& r.status == 200
    &&& r.body@ == update_report(apply_all(default_fields(), flat_json(utf8_lossy(req.body@))))
}

/// Updates the default profile with every submitted field.
pub fn handle(_app: &App, req: &Request) -> (r: Response)
    ensures
        answers(_app, req, r),
{
    let mut profile = Profile::default();
    let text = string_of(&lossy_text(req.body.as_slice()));
    apply(&mut profile, text.as_str());
    report(&profile)
}

/// Updates the default profile with the allowed submitted fields only.
pub fn fixed_handle(_app: &App, req: &Request) -> (r: Response)
    ensures
        r.status == 200,
        r.body@ == update_report(apply_allowed(default_fields(), flat_json(utf8_lossy(req.body@)))),
{
    let mut profile = Profile::default();
    let text = string_of(&lossy_text(req.body.as_slice()));
    apply_fixed(&mut profile, text.as_str());
    report(&profile)
}

/// Inside an open string literal, text without a double quote goes to the
/// current piece whole, commas included, and the literal stays open.
proof fn lemma_split_inside_string(x: Seq<char>, w: Seq<char>)
    requires
        split_state(x).2,
        !w.contains('"'),
    ensures
        split_state(x + w) == (split_state(x).0, split_state(x).1 + w, true),
    decreases w.len(),
{
    if w.len() == 0 {
        assert(x + w =~= x);
        assert(split_state(x).1 + w =~= split_state(x).1);
    } else {
        let w0 = w.drop_last();
        assert(!w0.contains('"')) by {
            if w0.contains('"') {
                let j = choose|j: int| 0 <= j < w0.len() && w0[j] == '"';
                assert(w[j] == '"');
            }
        }
        lemma_split_inside_string(x, w0);
        assert((x + w).drop_last() =~= x + w0);
        assert((x + w).last() == w.last());
        assert(w.last() != '"') by {
            if w.last() == '"' {
                assert(w[w.len() - 1] == '"');
            }
        }
        assert(split_state(x).1 + w0 + seq![w.last()] =~= split_state(x).1 + w);
    }
}

/// A comma inside a double-quoted string does not split a top-level piece:
/// reading a whole string literal `"v"` (no `"` inside `v`) outside any
/// string adds it, commas and all, to the current piece, finishes no piece,
/// and leaves the split outside a string again.
pub proof fn lemma_quoted_commas_do_not_split(x: Seq<char>, v: Seq<char>)
    requires
        !split_state(x).2,
        !v.contains('"'),
    ensures
        split_state(x + seq!['"'] + v + seq!['"']) == (
            split_state(x).0,
            split_state(x).1 + seq!['"'] + v + seq!['"'],
            false,
        ),
{
    let (parts, cur, _) = split_state(x);
    let open = x + seq!['"'];
    assert(open.drop_last() =~= x);
    assert(split_state(open) == (parts, cur.push('"'), true));
    lemma_split_inside_string(open, v);
    let body = open + v;
    assert((body + seq!['"']).drop_last() =~= body);
    assert(x + seq!['"'] + v + seq!['"'] =~= body + seq!['"']);
    assert(cur.push('"') + v + seq!['"'] =~= cur + seq!['"'] + v + seq!['"']);
}

/// Text that neither starts nor ends with whitespace trims to itself.
proof fn lemma_trim_unchanged(s: Seq<char>)
    requires
        s.len() > 0,
        !crate::text::is_space(s[0]),
        !crate::text::is_space(s.last()),
    ensures
        trim(s) == s,
{
    assert(crate::text::trim_start(s) == s);
    assert(crate::text::trim_end(s) == s);
}

/// The member `"k":"v"` of a flat JSON object.
pub open spec fn string_member(k: Seq<char>, v: Seq<char>) -> Seq<char> {
    seq!['"'] + k + seq!['"', ':', '"'] + v + seq!['"']
}

/// A key and a value that a string member can carry whole: neither holds a
/// double quote, and the key is not empty and holds no `:`.
pub open spec fn plain_member(k: Seq<char>, v: Seq<char>) -> bool {
    k.len() > 0 && !k.contains('"') && !k.contains(':') && !v.contains('"')
}

/// Reading a whole string member outside any string adds it to the current
/// piece and finishes no piece.
proof fn lemma_member_state(x: Seq<char>, k: Seq<char>, v: Seq<char>)
    requires
        !split_state(x).2,
        plain_member(k, v),
    ensures
        split_state(x + string_member(k, v)) == (split_state(x).0, split_state(x).1 + string_member(k, v), false),
{
    let q = '"';
    lemma_quoted_commas_do_not_split(x, k);
    let xk = x + seq![q] + k + seq![q];
    let xkc = xk + seq![':'];
    assert(xkc.drop_last() =~= xk);
    assert(xkc.last() == ':');
    lemma_quoted_commas_do_not_split(xkc, v);
    assert(xkc + seq![q] + v + seq![q] =~= x + string_member(k, v));
    assert(split_state(x).1 + seq![q] + k + seq![q] + seq![':'] + seq![q] + v + seq![q] =~= split_state(x).1
        + string_member(k, v));
}

/// A string member is the pair of its key and its value.
proof fn lemma_member_pair(k: Seq<char>, v: Seq<char>)
    requires
        plain_member(k, v),
    ensures
        pair_of(string_member(k, v)) == (k, v),
        trim(string_member(k, v)) == string_member(k, v),
{
    let q = '"';
    let piece = string_member(k, v);
    let qk = seq![q] + k + seq![q];
    let qv = seq![q] + v + seq![q];
    assert(piece =~= qk + seq![':'] + qv);
    assert(!crate::text::is_space(q));
    lemma_trim_unchanged(piece);
    reveal_strlit(":");
    assert(":"@ =~= seq![':']);
    crate::text::lemma_find_one(piece, ':', 0);
    let at: int = k.len() as int + 2;
    assert(piece[at] == ':');
    assert forall|j: int| 0 <= j < at implies piece[j] != ':' by {
        if 1 <= j < at - 1 {
            assert(piece[j] == k[j - 1]);
            if k[j - 1] == ':' {
                assert(k.contains(':'));
            }
        }
    }
    assert(find_from(piece, ":"@, 0) == Some(at));
    assert(piece.subrange(0, at) =~= qk);
    assert(piece.subrange(at + 1, piece.len() as int) =~= qv);
    lemma_trim_unchanged(qk);
    lemma_trim_unchanged(qv);
    assert(qk.subrange(1, qk.len() - 1) =~= k);
    assert(qv.subrange(1, qv.len() - 1) =~= v);
}

/// The braces around an object's members come off.
proof fn lemma_braced(inner: Seq<char>)
    ensures
        object_inner(seq!['{'] + inner + seq!['}']) == inner,
{
    let text = seq!['{'] + inner + seq!['}'];
    assert(!crate::text::is_space('{'));
    assert(!crate::text::is_space('}'));
    lemma_trim_unchanged(text);
    assert(text.subrange(1, text.len() - 1) =~= inner);
}

/// An object with one string member whose key and value hold no double
/// quote (and whose key holds no `:`) yields exactly that pair, whatever
/// commas the value holds: `{"k":"a,b"}` gives `[(k, "a,b")]`.
pub proof fn lemma_single_string_field(k: Seq<char>, v: Seq<char>)
    requires
        plain_member(k, v),
    ensures
        flat_json(seq!['{'] + string_member(k, v) + seq!['}']) == seq![(k, v)],
{
    let piece = string_member(k, v);
    let empty = Seq::<char>::empty();
    lemma_braced(piece);
    assert(split_state(empty) == (Seq::<Seq<char>>::empty(), empty, false));
    lemma_member_state(empty, k, v);
    assert(empty + piece =~= piece);
    lemma_member_pair(k, v);
    assert(split_top_level_spec(piece) =~= seq![piece]);
    assert(seq![piece].last() == piece);
    assert(seq![piece].drop_last() =~= Seq::<Seq<char>>::empty());
    assert(keyed_pairs(Seq::<Seq<char>>::empty()) == Seq::<(Seq<char>, Seq<char>)>::empty());
    assert(keyed_pairs(seq![piece]) == Seq::<(Seq<char>, Seq<char>)>::empty().push((k, v)));
    assert(Seq::<(Seq<char>, Seq<char>)>::empty().push((k, v)) =~= seq![(k, v)]);
}

/// A comma between two string members does split them: `{"a":"x","b":"y"}`
/// gives `[(a, x), (b, y)]`, whatever commas the values hold.
pub proof fn lemma_two_string_fields(k1: Seq<char>, v1: Seq<char>, k2: Seq<char>, v2: Seq<char>)
    requires
        plain_member(k1, v1),
        plain_member(k2, v2),
    ensures
        flat_json(seq!['{'] + string_member(k1, v1) + seq![','] + string_member(k2, v2) + seq!['}']) == seq![
            (k1, v1),
            (k2, v2),
        ],
{
    let m1 = string_member(k1, v1);
    let m2 = string_member(k2, v2);
    let inner = m1 + seq![','] + m2;
    let empty = Seq::<char>::empty();
    let none = Seq::<Seq<char>>::empty();
    assert(seq!['{'] + m1 + seq![','] + m2 + seq!['}'] =~= seq!['{'] + inner + seq!['}']);
    lemma_braced(inner);
    assert(split_state(empty) == (none, empty, false));
    lemma_member_state(empty, k1, v1);
    assert(empty + m1 =~= m1);
    let mc = m1 + seq![','];
    assert(mc.drop_last() =~= m1);
    assert(mc.last() == ',');
    assert(split_state(mc) == (seq![m1], empty, false));
    lemma_member_state(mc, k2, v2);
    assert(mc + m2 =~= inner);
    assert(empty + m2 =~= m2);
    assert(split_state(inner) == (seq![m1], m2, false));
    lemma_member_pair(k1, v1);
    lemma_member_pair(k2, v2);
    assert(split_top_level_spec(inner) =~= seq![m1, m2]);
    let ps = seq![m1, m2];
    assert(ps.drop_last() =~= seq![m1]);
    assert(seq![m1].drop_last() =~= none);
    assert(keyed_pairs(none) == Seq::<(Seq<char>, Seq<char>)>::empty());
    assert(keyed_pairs(seq![m1]) =~= seq![(k1, v1)]);
    assert(keyed_pairs(ps) =~= seq![(k1, v1), (k2, v2)]);
}

} // verus!
