//! User search by username (`/users/search?username=<name>`).

use vstd::prelude::*;
use crate::dvr::db::{
    all_terms_hold, clean_predicate, lemma_username_term_is_exact, matching_users, predicate_holds, query_result,
    some_alternative_holds, split_ci_spec, term_holds, User,
};
use crate::dvr::{or_default, App, Request, Response};
use crate::text::{
    chars_of, contains, find_from, is_space, join, join_chars, lemma_find_from, lower, lower_seq, occurs_at, owned,
    push_str, str_eq, string_of, trim, trim_end, trim_end_char, trim_start,
};

verus! {

/// The username a request asks for (empty when absent).
pub open spec fn requested_user(req: &Request) -> Seq<char> {
    or_default(req.query_spec("username"@), seq![])
}

/// The lookup query with the username spliced into it.
pub open spec fn lookup_sql(name: Seq<char>) -> Seq<char> {
    "SELECT id, username FROM users WHERE username = '"@ + name + "'"@
}

/// Usernames of the rows, in order.
pub open spec fn names_of(users: Seq<User>) -> Seq<Seq<char>> {
    users.map_values(|u: User| u.username@)
}

/// The rows whose username equals `name`, in order.
pub open spec fn users_named(users: Seq<User>, name: Seq<char>) -> Seq<User>
    decreases users.len(),
{
    if users.len() == 0 {
        seq![]
    } else {
        let rest = users_named(users.drop_last(), name);
        if users.last().username@ == name {
            rest.push(users.last())
        } else {
            rest
        }
    }
}

fn name_of<'a>(req: &'a Request) -> (r: &'a str)
    ensures
        r@ == requested_user(req),
{
    match req.query_get("username") {
        Some(v) => v,
        None => {
            proof {
                reveal_strlit("");
            }
            ""
        },
    }
}

/// `matches: <names joined by ,>`.
fn matches(users: &Vec<User>) -> (r: Response)
    ensures
        r.status == 200,
        r.body@ == "matches: "@ + join(names_of(users@), ","@),
{
    let mut names: Vec<Vec<char>> = Vec::new();
    let mut i: usize = 0;
    while i < users.len()
        invariant
            i <= users@.len(),
            names@.map_values(|v: Vec<char>| v@) == names_of(users@.take(i as int)),
        decreases users@.len() - i,
    {
        let ghost before = names@.map_values(|v: Vec<char>| v@);
        let n = chars_of(users[i].username.as_str());
        names.push(n);
        assert(names@.map_values(|v: Vec<char>| v@) =~= before.push(users@[i as int].username@));
        assert(names_of(users@.take(i + 1)) =~= names_of(users@.take(i as int)).push(
            users@[i as int].username@,
        ));
        i += 1;
    }
    assert(users@.take(users@.len() as int) =~= users@);
    let sep = chars_of(",");
    let joined = join_chars(&names, &sep);
    let mut out = owned("matches: ");
    push_str(&mut out, string_of(&joined).as_str());
    Response::ok(out)
}

/// What `handle` answers.
pub open spec fn answers(app: &App, req: &Request, r: Response) -> bool {
    &&& r.status == 200
    &&& r.body@ == "matches: "@ + join(
                names_of(query_result(app.db.users@, lookup_sql(requested_user(req)))),
                ","@,
            )
}

/// Builds the lookup query from the username and runs it.
pub fn handle(app: &App, req: &Request) -> (r: Response)
    ensures
        answers(app, req, r),
{
    let name = name_of(req);
    let mut query = owned("SELECT id, username FROM users WHERE username = '");
    push_str(&mut query, name);
    push_str(&mut query, "'");
    let rows = app.db.query_users(query.as_str());
    matches(&rows)
}

/// Compares usernames directly instead of interpolating into the query.
pub fn fixed_handle(app: &App, req: &Request) -> (r: Response)
    ensures
        r.status == 200,
        r.body@ == "matches: "@ + join(names_of(users_named(app.db.users@, requested_user(req))), ","@),
{
    let name = name_of(req);
    let mut rows: Vec<User> = Vec::new();
    let mut i: usize = 0;
    while i < app.db.users.len()
        invariant
            i <= app.db.users@.len(),
            rows@ == users_named(app.db.users@.take(i as int), name@),
        decreases app.db.users@.len() - i,
    {
        assert(app.db.users@.take(i + 1).drop_last() =~= app.db.users@.take(i as int));
        if str_eq(app.db.users[i].username.as_str(), name) {
            rows.push(app.db.users[i].copy());
        }
        i += 1;
    }
    assert(app.db.users@.take(app.db.users@.len() as int) =~= app.db.users@);
    matches(&rows)
}

/// The `WHERE` predicate of the lookup query.
pub open spec fn lookup_predicate(name: Seq<char>) -> Seq<char> {
    "username = '"@ + name + "'"@
}

/// The search lands on an occurrence when none comes before it.
proof fn lemma_find_lands(hay: Seq<char>, needle: Seq<char>, from: int, i: int)
    requires
        0 <= from <= i,
        occurs_at(hay, needle, i),
        forall|j: int| from <= j < i ==> !occurs_at(hay, needle, j),
    ensures
        find_from(hay, needle, from) == Some(i),
    decreases i - from,
{
    if from < i {
        lemma_find_lands(hay, needle, from + 1, i);
    }
}

/// The lower-cased predicate: its fixed text, the lower-cased name, a quote.
proof fn lemma_lower_predicate(name: Seq<char>)
    ensures
        lower_seq(lookup_predicate(name)) == "username = '"@ + lower_seq(name) + seq!['\''],
{
    reveal_strlit("username = '");
    reveal_strlit("'");
    let pre = "username = '"@;
    assert(lower_seq(pre) =~= pre);
    assert(lower_seq(lookup_predicate(name)) =~= lower_seq(pre) + lower_seq(name) + lower_seq("'"@));
    assert(lower_seq("'"@) =~= seq!['\'']);
}

/// A keyword of the predicate grammar (` or `, ` and `) that the lower-cased
/// name does not hold does not occur in the lower-cased predicate either.
proof fn lemma_keyword_absent(name: Seq<char>, kw: Seq<char>)
    requires
        kw.len() >= 2,
        kw[0] == ' ',
        kw[1] != '=',
        kw[1] != '\'',
        kw.last() == ' ',
        !contains(lower_seq(name), kw),
    ensures
        find_from(lower_seq(lookup_predicate(name)), kw, 0) is None,
{
    reveal_strlit("username = '");
    let pre = "username = '"@;
    let ln = lower_seq(name);
    let h = lower_seq(lookup_predicate(name));
    lemma_lower_predicate(name);
    lemma_find_from(ln, kw, 0);
    lemma_find_from(h, kw, 0);
    if let Some(j) = find_from(h, kw, 0) {
        let w = h.subrange(j, j + kw.len());
        assert(w[0] == h[j]);
        assert(w[1] == h[j + 1]);
        assert(w.last() == h[j + kw.len() - 1]);
        if j < 12 {
            assert(h[j] == pre[j]);
            assert(h[j + 1] == pre[j + 1]);
            assert(j == 8 || j == 10);
        } else if j + kw.len() <= 12 + ln.len() {
            assert(ln.subrange(j - 12, j - 12 + kw.len()) =~= w);
            assert(occurs_at(ln, kw, j - 12));
        } else {
            assert(j + kw.len() - 1 == h.len() - 1);
        }
    }
}

/// Without a keyword in it, the predicate is one alternative of one term.
proof fn lemma_single_piece(name: Seq<char>, kw: Seq<char>)
    requires
        kw.len() >= 2,
        kw[0] == ' ',
        kw[1] != '=',
        kw[1] != '\'',
        kw.last() == ' ',
        !contains(lower_seq(name), kw),
    ensures
        split_ci_spec(lookup_predicate(name), kw) == seq![lookup_predicate(name)],
{
    let t = lookup_predicate(name);
    lemma_keyword_absent(name, kw);
    assert(t.subrange(0, t.len() as int) =~= t);
}

/// For a name without ` or ` and ` and ` in it, the lookup predicate holds
/// for a row exactly when the row's username is the name.
proof fn lemma_predicate_is_name_equality(name: Seq<char>, user: User)
    requires
        !contains(lower_seq(name), " or "@),
        !contains(lower_seq(name), " and "@),
    ensures
        predicate_holds(lookup_predicate(name), user) <==> user.username@ == name,
{
    reveal_strlit(" or ");
    reveal_strlit(" and ");
    reveal_strlit("username = '");
    reveal_strlit("'");
    let t = lookup_predicate(name);
    assert(t[0] == 'u');
    assert(t.last() == '\'');
    assert(!is_space('u'));
    assert(!is_space('\''));
    assert(trim_start(t) == t);
    assert(trim_end(t) == t);
    assert(trim(t) == t);
    assert(trim_end_char(t, ';') == t);
    assert(clean_predicate(t) == t);
    lemma_single_piece(name, " or "@);
    lemma_single_piece(name, " and "@);
    lemma_username_term_is_exact(name, user);
    let or_terms = seq![t];
    let and_terms = seq![t];
    assert(all_terms_hold(and_terms, user) <==> term_holds(t, user)) by {
        if term_holds(t, user) {
            assert forall|j: int| 0 <= j < and_terms.len() implies term_holds(trim(#[trigger] and_terms[j]), user) by {
                assert(and_terms[j] == t);
            }
        }
        if all_terms_hold(and_terms, user) {
            assert(term_holds(trim(and_terms[0]), user));
        }
    }
    assert(some_alternative_holds(or_terms, user) <==> all_terms_hold(and_terms, user)) by {
        if all_terms_hold(and_terms, user) {
            assert(or_terms[0] == t);
            assert(all_terms_hold(split_ci_spec(or_terms[0], " and "@), user));
        }
    }
}

/// The rows the lookup predicate keeps are the rows named `name`.
proof fn lemma_matching_is_named(users: Seq<User>, name: Seq<char>)
    requires
        !contains(lower_seq(name), " or "@),
        !contains(lower_seq(name), " and "@),
    ensures
        matching_users(users, lookup_predicate(name)) == users_named(users, name),
    decreases users.len(),
{
    if users.len() > 0 {
        lemma_matching_is_named(users.drop_last(), name);
        lemma_predicate_is_name_equality(name, users.last());
    }
}

/// The lookup query compares usernames exactly: for a name in which neither
/// ` or ` nor ` and ` occurs (in any case), it returns the rows whose
/// username is the name, character for character, in order, and no others.
pub proof fn lemma_lookup_returns_exact_name(users: Seq<User>, name: Seq<char>)
    requires
        !contains(lower_seq(name), " or "@),
        !contains(lower_seq(name), " and "@),
    ensures
        query_result(users, lookup_sql(name)) == users_named(users, name),
{
    reveal_strlit("SELECT id, username FROM users WHERE username = '");
    reveal_strlit("username = '");
    reveal_strlit("'");
    reveal_strlit("where ");
    let head = "SELECT id, username FROM users WHERE username = '"@;
    let sql = lookup_sql(name);
    let ls = lower_seq(sql);
    assert(head.len() == 49);
    assert(forall|j: int| 0 <= j < 49 ==> sql[j] == head[j]);
    assert(forall|j: int| 0 <= j < 49 ==> ls[j] == lower(head[j]));
    assert(ls.subrange(31, 37) =~= "where "@);
    assert(occurs_at(ls, "where "@, 31));
    assert forall|j: int| 0 <= j < 31 implies !occurs_at(ls, "where "@, j) by {
        if occurs_at(ls, "where "@, j) {
            assert(ls.subrange(j, j + 6)[0] == ls[j]);
            assert(ls[j] == 'w');
            assert(j == 0 || j == 1 || j == 2 || j == 3 || j == 4 || j == 5 || j == 6 || j == 7 || j == 8
                || j == 9 || j == 10 || j == 11 || j == 12 || j == 13 || j == 14 || j == 15 || j == 16 || j
                == 17 || j == 18 || j == 19 || j == 20 || j == 21 || j == 22 || j == 23 || j == 24 || j == 25
                || j == 26 || j == 27 || j == 28 || j == 29 || j == 30);
        }
    }
    lemma_find_lands(ls, "where "@, 0, 31);
    assert(sql.subrange(37, sql.len() as int) =~= lookup_predicate(name));
    lemma_matching_is_named(users, name);
}

} // verus!
