//! A tiny in-memory data store with a small SQL-ish query interpreter.
//!
//! `query_users` understands `... WHERE <predicate>`, where the predicate is
//! an `OR` of `AND`s of terms `col = 'literal'` or `'a' = 'b'`.

use vstd::prelude::*;
use crate::text::{
    chars_eq, chars_of, decimal, decimal_chars, find_from, find_from_chars, lemma_find_from, lower_chars, occurs_at,
    is_space, trim_end, trim_start, lower_seq, owned, slice_chars, split_keyed, split_keyed_chars, trim, trim_chars, trim_end_char,
    trim_end_char_chars,
};

verus! {

#[derive(Clone, Debug)]
pub struct User {
    pub id: u64,
    pub username: String,
    pub is_admin: bool,
    /// A value the app treats as sensitive and never intends to expose.
    pub password_hash: String,
}

#[derive(Clone, Debug)]
pub struct Document {
    pub id: u64,
    pub owner: String,
    pub body: String,
}

pub struct Db {
    pub users: Vec<User>,
    pub documents: Vec<Document>,
}

impl User {
    /// A field-by-field copy.
    pub fn copy(&self) -> (r: User)
        ensures
            r == *self,
    {
        User {
            id: self.id,
            username: self.username.clone(),
            is_admin: self.is_admin,
            password_hash: self.password_hash.clone(),
        }
    }
}

/// A user record by value.
pub open spec fn user_is(u: User, id: u64, name: Seq<char>, admin: bool, hash: Seq<char>) -> bool {
    u.id == id && u.username@ == name && u.is_admin == admin && u.password_hash@ == hash
}

/// A document record by value.
pub open spec fn document_is(d: Document, id: u64, owner: Seq<char>, body: Seq<char>) -> bool {
    d.id == id && d.owner@ == owner && d.body@ == body
}

/// The content the store is seeded with.
pub open spec fn is_seeded(db: Db) -> bool {
    &&& db.users@.len() == 3
    &&& user_is(db.users@[0], 1, "alice"@, false, "argon2:alice"@)
    &&& user_is(db.users@[1], 2, "bob"@, false, "argon2:bob"@)
    &&& user_is(db.users@[2], 3, "root"@, true, "argon2:root-secret"@)
    &&& db.documents@.len() == 3
    &&& document_is(db.documents@[0], 10, "alice"@, "alice's private notes"@)
    &&& document_is(db.documents@[1], 11, "bob"@, "bob's private notes"@)
    &&& document_is(db.documents@[2], 12, "root"@, "root's private notes"@)
}

// ---------------------------------------------------------------------------
// Meaning of a query.
// ---------------------------------------------------------------------------

/// `s` with one pair of surrounding single quotes removed, if it has them
/// (after trimming).
pub open spec fn unquote_opt_spec(s: Seq<char>) -> Option<Seq<char>> {
    let t = trim(s);
    if t.len() >= 2 && t[0] == '\'' && t.last() == '\'' {
        Some(t.subrange(1, t.len() - 1))
    } else {
        None
    }
}

/// The unquoted literal, or `s` itself when it is not quoted.
pub open spec fn unquote_spec(s: Seq<char>) -> Seq<char> {
    match unquote_opt_spec(s) {
        Some(v) => v,
        None => s,
    }
}

/// Truth of one term `lhs = rhs` for a row.
pub open spec fn term_holds(term: Seq<char>, user: User) -> bool {
    match find_from(term, "="@, 0) {
        None => false,
        Some(p) => {
            let lhs = trim(term.subrange(0, p));
            let rhs = trim(term.subrange(p + 1, term.len() as int));
            let rhs_val = unquote_spec(rhs);
            match unquote_opt_spec(lhs) {
                Some(lhs_val) => lhs_val == rhs_val,
                None => {
                    let col = lower_seq(lhs);
                    if col == "username"@ {
                        user.username@ == rhs_val
                    } else if col == "id"@ {
                        decimal(user.id as nat) == rhs_val
                    } else if col == "is_admin"@ {
                        (if user.is_admin { "1"@ } else { "0"@ }) == rhs_val
                    } else {
                        false
                    }
                },
            }
        },
    }
}

/// Case-insensitive split of `hay` on the lower-case keyword `needle`.
pub open spec fn split_ci_spec(hay: Seq<char>, needle: Seq<char>) -> Seq<Seq<char>> {
    split_keyed(hay, lower_seq(hay), needle, 0)
}

/// Every `AND` term of `or_term` holds.
pub open spec fn all_terms_hold(and_terms: Seq<Seq<char>>, user: User) -> bool {
    forall|j: int| 0 <= j < and_terms.len() ==> term_holds(trim(#[trigger] and_terms[j]), user)
}

/// Some `OR` alternative holds.
pub open spec fn some_alternative_holds(or_terms: Seq<Seq<char>>, user: User) -> bool {
    exists|i: int|
        0 <= i < or_terms.len() && all_terms_hold(split_ci_spec(#[trigger] or_terms[i], " and "@), user)
}

/// The predicate text once surrounding whitespace and trailing `;` are gone.
pub open spec fn clean_predicate(pred: Seq<char>) -> Seq<char> {
    trim(trim_end_char(trim(pred), ';'))
}

/// Truth of a `WHERE` predicate for a row.
pub open spec fn predicate_holds(pred: Seq<char>, user: User) -> bool {
    some_alternative_holds(split_ci_spec(clean_predicate(pred), " or "@), user)
}

/// The rows of `users` for which `pred` holds, in order.
pub open spec fn matching_users(users: Seq<User>, pred: Seq<char>) -> Seq<User>
    decreases users.len(),
{
    if users.len() == 0 {
        seq![]
    } else {
        let rest = matching_users(users.drop_last(), pred);
        if predicate_holds(pred, users.last()) {
            rest.push(users.last())
        } else {
            rest
        }
    }
}

/// The rows a query returns: all rows without a `WHERE`, else the rows for
/// which the text after the first `where ` (found case-insensitively) holds.
pub open spec fn query_result(users: Seq<User>, sql: Seq<char>) -> Seq<User> {
    match find_from(lower_seq(sql), "where "@, 0) {
        None => users,
        Some(p) => matching_users(users, sql.subrange(p + 6, sql.len() as int)),
    }
}

impl Db {
    /// The store with its three users and three documents.
    pub fn seed() -> (r: Self)
        ensures
            is_seeded(r),
    {
        let mut users: Vec<User> = Vec::new();
        users.push(User { id: 1, username: owned("alice"), is_admin: false, password_hash: owned("argon2:alice") });
        users.push(User { id: 2, username: owned("bob"), is_admin: false, password_hash: owned("argon2:bob") });
        users.push(User { id: 3, username: owned("root"), is_admin: true, password_hash: owned("argon2:root-secret") });
        let mut documents: Vec<Document> = Vec::new();
        documents.push(Document { id: 10, owner: owned("alice"), body: owned("alice's private notes") });
        documents.push(Document { id: 11, owner: owned("bob"), body: owned("bob's private notes") });
        documents.push(Document { id: 12, owner: owned("root"), body: owned("root's private notes") });
        Db { users, documents }
    }

    /// Run a SQL-ish query and return the matching users.
    pub fn query_users(&self, sql: &str) -> (r: Vec<User>)
        ensures
            r@ == query_result(self.users@, sql@),
    {
        let sql_chars = chars_of(sql);
        let lower = lower_chars(&sql_chars);
        let key = chars_of("where ");
        proof {
            reveal_strlit("where ");
        }
        let lower_len = lower.len();
        let where_pos = match find_from_chars(&lower, &key, 0) {
            Some(p) => {
                proof {
                    lemma_find_from(lower@, key@, 0);
                    assert(occurs_at(lower@, key@, p as int));
                    assert(key@.len() == 6);
                }
                p + 6
            },
            None => {
                return copy_users(&self.users);
            },
        };
        let predicate = slice_chars(&sql_chars, where_pos, sql_chars.len());
        let mut out: Vec<User> = Vec::new();
        let mut i: usize = 0;
        while i < self.users.len()
            invariant
                i <= self.users@.len(),
                out@ == matching_users(self.users@.take(i as int), predicate@),
            decreases self.users@.len() - i,
        {
            let keep = eval_predicate(&predicate, &self.users[i]);
            assert(self.users@.take(i + 1).drop_last() =~= self.users@.take(i as int));
            if keep {
                out.push(self.users[i].copy());
            }
            i += 1;
        }
        assert(self.users@.take(self.users@.len() as int) =~= self.users@);
        out
    }
}

/// Copies of every user.
fn copy_users(users: &Vec<User>) -> (r: Vec<User>)
    ensures
        r@ == users@,
{
    let mut out: Vec<User> = Vec::new();
    let mut i: usize = 0;
    while i < users.len()
        invariant
            i <= users@.len(),
            out@ == users@.take(i as int),
        decreases users@.len() - i,
    {
        out.push(users[i].copy());
        assert(users@.take(i as int).push(users@[i as int]) =~= users@.take(i + 1));
        i += 1;
    }
    assert(users@.take(users@.len() as int) =~= users@);
    out
}

/// Evaluate a predicate against a user row.
fn eval_predicate(pred: &Vec<char>, user: &User) -> (r: bool)
    ensures
        r == predicate_holds(pred@, *user),
{
    let t1 = trim_chars(pred);
    let t2 = trim_end_char_chars(&t1, ';');
    let cleaned = trim_chars(&t2);
    let or_kw = chars_of(" or ");
    let and_kw = chars_of(" and ");
    proof {
        reveal_strlit(" or ");
        reveal_strlit(" and ");
    }
    let or_terms = split_ci(&cleaned, &or_kw);
    let ghost or_view = or_terms@.map_values(|v: Vec<char>| v@);
    let mut i: usize = 0;
    while i < or_terms.len()
        invariant
            i <= or_terms@.len(),
            or_view == or_terms@.map_values(|v: Vec<char>| v@),
            or_view == split_ci_spec(cleaned@, " or "@),
            cleaned@ == clean_predicate(pred@),
            and_kw@ == " and "@,
            and_kw@.len() == 5,
            forall|k: int| 0 <= k < i ==> !all_terms_hold(split_ci_spec(#[trigger] or_view[k], " and "@), *user),
        decreases or_terms@.len() - i,
    {
        let and_terms = split_ci(&or_terms[i], &and_kw);
        let ghost and_view = and_terms@.map_values(|v: Vec<char>| v@);
        assert(or_view[i as int] == or_terms@[i as int]@);
        let mut all = true;
        let mut j: usize = 0;
        while j < and_terms.len()
            invariant
                j <= and_terms@.len(),
                and_view == and_terms@.map_values(|v: Vec<char>| v@),
                all == forall|k: int| 0 <= k < j ==> term_holds(trim(#[trigger] and_view[k]), *user),
            decreases and_terms@.len() - j,
        {
            let t = trim_chars(&and_terms[j]);
            assert(and_view[j as int] == and_terms@[j as int]@);
            let holds = eval_term(&t, user);
            if !holds {
                all = false;
            }
            j += 1;
        }
        if all {
            assert(all_terms_hold(split_ci_spec(or_view[i as int], " and "@), *user));
            return true;
        }
        i += 1;
    }
    false
}

/// Case-insensitive split on a lower-case keyword, keeping original case.
fn split_ci(hay: &Vec<char>, needle_lc: &Vec<char>) -> (r: Vec<Vec<char>>)
    requires
        needle_lc@.len() > 0,
    ensures
        r@.map_values(|v: Vec<char>| v@) == split_ci_spec(hay@, needle_lc@),
{
    let key = lower_chars(hay);
    split_keyed_chars(hay, &key, needle_lc, 0)
}

/// Truth of one term for a user row.
fn eval_term(term: &Vec<char>, user: &User) -> (r: bool)
    ensures
        r == term_holds(term@, *user),
{
    let eq = chars_of("=");
    proof {
        reveal_strlit("=");
    }
    let p = match find_from_chars(term, &eq, 0) {
        Some(p) => p,
        None => return false,
    };
    proof {
        lemma_find_from(term@, eq@, 0);
        assert(occurs_at(term@, eq@, p as int));
        assert(eq@.len() == 1);
    }
    let tn = term.len();
    let lhs = trim_chars(&slice_chars(term, 0, p));
    let rhs = trim_chars(&slice_chars(term, p + 1, tn));
    let rhs_val = unquote(&rhs);
    match unquote_opt(&lhs) {
        Some(lhs_val) => chars_eq(&lhs_val, &rhs_val),
        None => {
            let col = lower_chars(&lhs);
            proof {
                reveal_strlit("username");
                reveal_strlit("id");
                reveal_strlit("is_admin");
                reveal_strlit("1");
                reveal_strlit("0");
            }
            if chars_eq(&col, &chars_of("username")) {
                let name = chars_of(user.username.as_str());
                chars_eq(&name, &rhs_val)
            } else if chars_eq(&col, &chars_of("id")) {
                let id = decimal_chars(user.id);
                chars_eq(&id, &rhs_val)
            } else if chars_eq(&col, &chars_of("is_admin")) {
                let flag = if user.is_admin { chars_of("1") } else { chars_of("0") };
                chars_eq(&flag, &rhs_val)
            } else {
                false
            }
        },
    }
}

/// The unquoted literal, or the text itself when it is not quoted.
fn unquote(s: &Vec<char>) -> (r: Vec<char>)
    ensures
        r@ == unquote_spec(s@),
{
    match unquote_opt(s) {
        Some(v) => v,
        None => slice_chars(s, 0, s.len()),
    }
}

/// The literal between single quotes, if the trimmed text is quoted.
fn unquote_opt(s: &Vec<char>) -> (r: Option<Vec<char>>)
    ensures
        match unquote_opt_spec(s@) {
            Some(v) => r is Some && r->0@ == v,
            None => r is None,
        },
{
    let t = trim_chars(s);
    let n = t.len();
    if n >= 2 && t[0] == '\'' && t[n - 1] == '\'' {
        Some(slice_chars(&t, 1, n - 1))
    } else {
        None
    }
}

/// A quoted literal with nothing around it trims to itself.
proof fn lemma_trim_quoted(v: Seq<char>)
    ensures
        trim(seq!['\''] + v + seq!['\'']) == seq!['\''] + v + seq!['\''],
        trim(seq![' ', '\''] + v + seq!['\'']) == seq!['\''] + v + seq!['\''],
{
    let q = seq!['\''] + v + seq!['\''];
    let sq = seq![' ', '\''] + v + seq!['\''];
    assert(q[0] == '\'');
    assert(q.last() == '\'');
    assert(!is_space('\''));
    assert(is_space(' '));
    assert(trim_start(q) == q);
    assert(trim_end(q) == q);
    assert(sq[0] == ' ');
    assert(sq.drop_first() =~= q);
    assert(trim_start(sq) == trim_start(q));
}

/// How a term `col = 'v'` on a plain column name breaks up: the column
/// name on the left, the literal `v` on the right.
proof fn lemma_column_term_parts(c: Seq<char>, v: Seq<char>)
    requires
        c.len() > 0,
        !c.contains('='),
        !is_space(c[0]),
        c[0] != '\'',
        !is_space(c.last()),
        lower_seq(c) == c,
    ensures
        ({
            let term = c + " = '"@ + v + "'"@;
            let p = c.len() as int + 1;
            &&& find_from(term, "="@, 0) == Some(p)
            &&& trim(term.subrange(0, p)) == c
            &&& unquote_opt_spec(c) is None
            &&& trim(term.subrange(p + 1, term.len() as int)) == seq!['\''] + v + seq!['\'']
            &&& unquote_spec(seq!['\''] + v + seq!['\'']) == v
        }),
{
    reveal_strlit(" = '");
    reveal_strlit("'");
    reveal_strlit("=");
    let term = c + " = '"@ + v + "'"@;
    let m = c.len() as int;
    assert("="@ =~= seq!['=']);
    crate::text::lemma_find_one(term, '=', 0);
    assert(term[m + 1] == '=');
    assert forall|j: int| 0 <= j < m + 1 implies term[j] != '=' by {
        if j < m {
            assert(term[j] == c[j]);
            if c[j] == '=' {
                assert(c.contains('='));
            }
        }
    }
    let left = term.subrange(0, m + 1);
    assert(left =~= c.push(' '));
    assert(is_space(' '));
    assert(trim_start(c) == c);
    assert(trim_end(c) == c);
    assert(trim_start(left) == left);
    assert(left.drop_last() =~= c);
    assert(trim_end(left) == c);
    let right = term.subrange(m + 2, term.len() as int);
    assert(right =~= seq![' ', '\''] + v + seq!['\'']);
    lemma_trim_quoted(v);
    let q = seq!['\''] + v + seq!['\''];
    assert(q.subrange(1, q.len() - 1) =~= v);
}

/// A term `username = 'v'` holds for a row exactly when the row's username
/// is `v`, character for character: no prefix, no case folding, whatever `v`
/// holds.
pub proof fn lemma_username_term_is_exact(v: Seq<char>, user: User)
    ensures
        term_holds("username = '"@ + v + "'"@, user) <==> user.username@ == v,
{
    reveal_strlit("username = '");
    reveal_strlit("username");
    reveal_strlit(" = '");
    let c = "username"@;
    assert(!c.contains('=')) by {
        if c.contains('=') {
            let j = choose|j: int| 0 <= j < c.len() && c[j] == '=';
            assert(c[j] != '=');
        }
    }
    assert(lower_seq(c) =~= c);
    assert("username = '"@ =~= c + " = '"@);
    lemma_column_term_parts(c, v);
}

/// A term `id = 'v'` holds for a row exactly when `v` is the row's id in
/// decimal, character for character.
pub proof fn lemma_id_term_is_exact(v: Seq<char>, user: User)
    ensures
        term_holds("id = '"@ + v + "'"@, user) <==> decimal(user.id as nat) == v,
{
    reveal_strlit("id = '");
    reveal_strlit("id");
    reveal_strlit("username");
    reveal_strlit(" = '");
    let c = "id"@;
    assert(!c.contains('=')) by {
        if c.contains('=') {
            let j = choose|j: int| 0 <= j < c.len() && c[j] == '=';
            assert(c[j] != '=');
        }
    }
    assert(lower_seq(c) =~= c);
    assert("id = '"@ =~= c + " = '"@);
    assert(c != "username"@);
    lemma_column_term_parts(c, v);
}

/// A term `is_admin = 'v'` holds for a row exactly when `v` is `1` for an
/// administrator and `0` for anyone else.
pub proof fn lemma_is_admin_term_is_exact(v: Seq<char>, user: User)
    ensures
        term_holds("is_admin = '"@ + v + "'"@, user) <==> v == (if user.is_admin { "1"@ } else { "0"@ }),
{
    reveal_strlit("is_admin = '");
    reveal_strlit("is_admin");
    reveal_strlit("id");
    reveal_strlit("username");
    reveal_strlit(" = '");
    let c = "is_admin"@;
    assert(!c.contains('=')) by {
        if c.contains('=') {
            let j = choose|j: int| 0 <= j < c.len() && c[j] == '=';
            assert(c[j] != '=');
        }
    }
    assert(lower_seq(c) =~= c);
    assert("is_admin = '"@ =~= c + " = '"@);
    assert(c[0] != "username"@[0]);
    assert(c != "username"@);
    assert(c != "id"@);
    lemma_column_term_parts(c, v);
}

} // verus!
