//! Post-processing hook trigger (`/hook/run`).
//!
//! The command comes from the operator's configuration. The handlers report
//! what would be run rather than running it.

use vstd::prelude::*;
use crate::dvr::{or_default, App, Request, Response, Source};
use crate::text::{
    chars_of, contains, debug_quote, debug_text, find_from_chars, join, owned, push_str, replace,
    replace_chars, string_of, words, words_chars,
};

verus! {

/// The request-derived argument (`arg`, empty when absent).
pub open spec fn hook_arg(req: &Request) -> Seq<char> {
    or_default(req.query_spec("arg"@), seq![])
}

/// The command with `$ARG` replaced by the argument, when it holds `$ARG`.
pub open spec fn would_run(cmd: Seq<char>, arg: Seq<char>) -> Seq<char> {
    if contains(cmd, "$ARG"@) {
        replace(cmd, "$ARG"@, arg)
    } else {
        cmd
    }
}

/// Report of the shell invocation.
pub open spec fn shell_report(cmd: Seq<char>, arg: Seq<char>) -> Seq<char> {
    "would run via shell: sh -c \""@ + would_run(cmd, arg) + "\""@
}

/// `format!("{:?}", words)` of a list of words.
pub open spec fn debug_list(ws: Seq<Seq<char>>) -> Seq<char> {
    "["@ + join(ws.map_values(|w: Seq<char>| debug_text(w)), ", "@) + "]"@
}

fn arg_of<'a>(req: &'a Request) -> (r: &'a str)
    ensures
        r@ == hook_arg(req),
{
    match req.query_get("arg") {
        Some(v) => v,
        None => {
            proof {
                reveal_strlit("");
            }
            ""
        },
    }
}

/// What `handle` answers.
pub open spec fn answers(app: &App, req: &Request, r: Response) -> bool {
    &&& r.status == 200
    &&& match app.config.post_hook_command {
                None => r.body@ == "no hook configured"@,
                Some(c) => r.body@ == shell_report(c@, hook_arg(req)),
            }
}

/// Reports the command, with the argument templated in, as run through a shell.
pub fn handle(app: &App, req: &Request) -> (r: Response)
    ensures
        answers(app, req, r),
{
    let cmd = match &app.config.post_hook_command {
        Some(c) => c,
        None => return Response::ok(owned("no hook configured")),
    };
    let cmd_chars = chars_of(cmd.as_str());
    let marker = chars_of("$ARG");
    proof {
        reveal_strlit("$ARG");
    }
    let would: Vec<char> = match find_from_chars(&cmd_chars, &marker, 0) {
        Some(_) => {
            let arg = chars_of(arg_of(req));
            replace_chars(&cmd_chars, &marker, &arg)
        },
        None => cmd_chars,
    };
    let mut out = owned("would run via shell: sh -c \"");
    push_str(&mut out, string_of(&would).as_str());
    push_str(&mut out, "\"");
    Response::ok(out)
}

/// Only from the internal mesh, never with request data in the command, and
/// reported as an argument vector rather than a shell line.
pub fn fixed_handle(app: &App, req: &Request) -> (r: Response)
    ensures
        req.source != Source::InternalMesh ==> r.status == 403 && r.body@
            == "hook not permitted from this source"@,
        req.source == Source::InternalMesh ==> match app.config.post_hook_command {
            None => r.status == 200 && r.body@ == "no hook configured"@,
            Some(c) => if contains(c@, "$ARG"@) {
                r.status == 500 && r.body@ == "misconfigured hook: request data in command"@
            } else {
                r.status == 200 && r.body@ == "would run argv: "@ + debug_list(words(c@))
            },
        },
{
    if req.source != Source::InternalMesh {
        return Response::err(403, owned("hook not permitted from this source"));
    }
    let cmd = match &app.config.post_hook_command {
        Some(c) => c,
        None => return Response::ok(owned("no hook configured")),
    };
    let cmd_chars = chars_of(cmd.as_str());
    let marker = chars_of("$ARG");
    if find_from_chars(&cmd_chars, &marker, 0).is_some() {
        return Response::err(500, owned("misconfigured hook: request data in command"));
    }
    let parts = words_chars(&cmd_chars);
    let ghost pv = parts@.map_values(|v: Vec<char>| v@);
    let mut quoted: Vec<Vec<char>> = Vec::new();
    let mut i: usize = 0;
    while i < parts.len()
        invariant
            i <= parts@.len(),
            pv == parts@.map_values(|v: Vec<char>| v@),
            quoted@.map_values(|v: Vec<char>| v@) == pv.take(i as int).map_values(
                |w: Seq<char>| debug_text(w),
            ),
        decreases parts@.len() - i,
    {
        let word = string_of(&parts[i]);
        let q = chars_of(debug_quote(word.as_str()).as_str());
        let ghost before = quoted@.map_values(|v: Vec<char>| v@);
        assert(pv[i as int] == parts@[i as int]@);
        quoted.push(q);
        assert(quoted@.map_values(|v: Vec<char>| v@) =~= before.push(q@));
        assert(pv.take(i + 1).map_values(|w: Seq<char>| debug_text(w)) =~= pv.take(i as int).map_values(
            |w: Seq<char>| debug_text(w),
        ).push(debug_text(pv[i as int])));
        i += 1;
    }
    assert(pv.take(parts@.len() as int) =~= pv);
    let sep = chars_of(", ");
    let inner = crate::text::join_chars(&quoted, &sep);
    let mut out = owned("would run argv: [");
    push_str(&mut out, string_of(&inner).as_str());
    push_str(&mut out, "]");
    proof {
        reveal_strlit("would run argv: [");
        reveal_strlit("would run argv: ");
        reveal_strlit("[");
        assert("would run argv: ["@ =~= "would run argv: "@ + "["@);
    }
    assert(out@ =~= "would run argv: "@ + debug_list(words(cmd@)));
    Response::ok(out)
}

} // verus!
