//! The nv-comment threads API, as the library reads it: the request URL, and
//! the flat list of comments of all threads (owner / main / easy fork) in the
//! answer.  `is_owner` is set when the thread's fork is `owner`.
use vstd::prelude::*;

use crate::error::ApiError;
use crate::json::{
    array_of, as_array, as_i64, as_str, as_u64, get, get_field, get_opt, i64_of, opt, str_of,
    u64_of, Json,
};
use crate::text::{
    chars_of, dec, dec_int, join, push_dec, push_dec_i64, str_eq, strip_trailing,
    strip_trailing_chars, push_chars,
};

verus! {

/// One comment.
#[derive(Debug, Clone)]
pub struct Comment {
    /// Stable id from the server (e.g. `"abc-123"`).
    pub id: String,
    pub no: i64,
    pub vpos_ms: i64,
    pub content: String,
    /// The commands joined by spaces (the legacy `mail` field).
    pub mail: String,
    pub commands: Vec<String>,
    pub user_id: Option<String>,
    pub posted_at: Option<String>,
    /// `"owner"`, `"main"` or `"easy"`.
    pub fork: String,
    /// `fork == "owner"`.
    pub is_owner: bool,
    pub nicoru_count: Option<i64>,
    pub score: Option<i64>,
}

/// A comment with its text as character sequences.
pub struct CommentV {
    pub id: Seq<char>,
    pub no: i64,
    pub vpos_ms: i64,
    pub content: Seq<char>,
    pub mail: Seq<char>,
    pub commands: Seq<Seq<char>>,
    pub user_id: Option<Seq<char>>,
    pub posted_at: Option<Seq<char>>,
    pub fork: Seq<char>,
    pub is_owner: bool,
    pub nicoru_count: Option<i64>,
    pub score: Option<i64>,
}

pub open spec fn opt_view(o: Option<String>) -> Option<Seq<char>> {
    match o {
        Some(s) => Some(s@),
        None => None,
    }
}

pub open spec fn string_seq_view(v: Seq<String>) -> Seq<Seq<char>> {
    v.map_values(|s: String| s@)
}

impl View for Comment {
    type V = CommentV;

    open spec fn view(&self) -> CommentV {
        CommentV {
            id: self.id@,
            no: self.no,
            vpos_ms: self.vpos_ms,
            content: self.content@,
            mail: self.mail@,
            commands: string_seq_view(self.commands@),
            user_id: opt_view(self.user_id),
            posted_at: opt_view(self.posted_at),
            fork: self.fork@,
            is_owner: self.is_owner,
            nicoru_count: self.nicoru_count,
            score: self.score,
        }
    }
}

/// The string members of a JSON array, in order; other members are skipped.
pub open spec fn strings_of(vs: Seq<Json>) -> Seq<Seq<char>>
    decreases vs.len(),
{
    if vs.len() == 0 {
        Seq::empty()
    } else {
        let rest = strings_of(vs.drop_last());
        match as_str(Some(vs.last())) {
            Some(s) => rest.push(s),
            None => rest,
        }
    }
}

/// `userId` as text: a string as it is, an integer in decimal.
pub open spec fn user_id_of(v: Option<Json>) -> Option<Seq<char>> {
    match as_str(v) {
        Some(s) => Some(s),
        None => match as_i64(v) {
            Some(n) => Some(dec_int(n as int)),
            None => None,
        },
    }
}

/// One comment object of a thread with fork `fork`; `None` without a
/// string `body`.  A missing `id` becomes `{fork}-{no}`; missing numbers are 0.
pub open spec fn spec_comment(c: Json, fork: Seq<char>, is_owner: bool) -> Option<CommentV> {
    let cj = Some(c);
    match as_str(get(cj, "body"@)) {
        None => None,
        Some(body) => {
            let no = match as_i64(get(cj, "no"@)) {
                Some(n) => n,
                None => 0,
            };
            let commands = match as_array(get(cj, "commands"@)) {
                Some(a) => strings_of(a),
                None => Seq::empty(),
            };
            Some(
                CommentV {
                    id: match as_str(get(cj, "id"@)) {
                        Some(s) => s,
                        None => fork + "-"@ + dec_int(no as int),
                    },
                    no,
                    vpos_ms: match as_i64(get(cj, "vposMs"@)) {
                        Some(n) => n,
                        None => 0,
                    },
                    content: body,
                    mail: join(commands, " "@),
                    commands,
                    user_id: user_id_of(get(cj, "userId"@)),
                    posted_at: as_str(get(cj, "postedAt"@)),
                    fork,
                    is_owner,
                    nicoru_count: as_i64(get(cj, "nicoruCount"@)),
                    score: as_i64(get(cj, "score"@)),
                },
            )
        },
    }
}

/// A comment object with a string `body` always gives a comment, and each
/// of its fields comes from the member of the same name: the text from
/// `body`, the number from `no`, the time from `vposMs`, the user from
/// `userId` (a string as it is, an integer in decimal), the posting time
/// from `postedAt`, the counts from `nicoruCount` and `score`, the id from
/// `id`; the fork and the owner flag are the thread's.
pub proof fn law_comment_fields_come_from_same_named_members(
    c: Json,
    fork: Seq<char>,
    is_owner: bool,
)
    ensures
        (spec_comment(c, fork, is_owner) is Some) == (as_str(get(Some(c), "body"@)) is Some),
        spec_comment(c, fork, is_owner) matches Some(cm) ==> {
            &&& Some(cm.content) == as_str(get(Some(c), "body"@))
            &&& as_str(get(Some(c), "userId"@)) matches Some(u) ==> cm.user_id == Some(u)
            &&& as_i64(get(Some(c), "userId"@)) matches Some(n) ==> cm.user_id == Some(
                dec_int(n as int),
            )
            &&& as_str(get(Some(c), "userId"@)) is None && as_i64(get(Some(c), "userId"@)) is None
                ==> cm.user_id is None
            &&& as_i64(get(Some(c), "no"@)) matches Some(n) ==> cm.no == n
            &&& as_i64(get(Some(c), "vposMs"@)) matches Some(v) ==> cm.vpos_ms == v
            &&& as_str(get(Some(c), "id"@)) matches Some(i) ==> cm.id == i
            &&& cm.posted_at == as_str(get(Some(c), "postedAt"@))
            &&& cm.nicoru_count == as_i64(get(Some(c), "nicoruCount"@))
            &&& cm.score == as_i64(get(Some(c), "score"@))
            &&& cm.fork == fork
            &&& cm.is_owner == is_owner
        },
{
}

/// The comments of a list of comment objects, skipping those without body.
pub open spec fn comments_of(cs: Seq<Json>, fork: Seq<char>, is_owner: bool) -> Seq<CommentV>
    decreases cs.len(),
{
    if cs.len() == 0 {
        Seq::empty()
    } else {
        let rest = comments_of(cs.drop_last(), fork, is_owner);
        match spec_comment(cs.last(), fork, is_owner) {
            Some(v) => rest.push(v),
            None => rest,
        }
    }
}

/// A thread's fork; `main` when it has none.
pub open spec fn thread_fork(t: Json) -> Seq<char> {
    match as_str(get(Some(t), "fork"@)) {
        Some(f) => f,
        None => "main"@,
    }
}

/// The comments of one thread; none when it has no `comments` array.
pub open spec fn thread_comments(t: Json) -> Seq<CommentV> {
    let fork = thread_fork(t);
    match as_array(get(Some(t), "comments"@)) {
        Some(cs) => comments_of(cs, fork, fork == "owner"@),
        None => Seq::empty(),
    }
}

pub open spec fn threads_comments(ts: Seq<Json>) -> Seq<CommentV>
    decreases ts.len(),
{
    if ts.len() == 0 {
        Seq::empty()
    } else {
        threads_comments(ts.drop_last()) + thread_comments(ts.last())
    }
}

/// All comments of `data.threads`, thread by thread in order; none when the
/// envelope has no such array.
pub open spec fn spec_parse_threads(envelope: Json) -> Seq<CommentV> {
    match as_array(get(get(Some(envelope), "data"@), "threads"@)) {
        Some(ts) => threads_comments(ts),
        None => Seq::empty(),
    }
}

proof fn lemma_comments_of_fork(cs: Seq<Json>, fork: Seq<char>, is_owner: bool)
    ensures
        forall|k: int|
            0 <= k < comments_of(cs, fork, is_owner).len() ==> (#[trigger] comments_of(
                cs,
                fork,
                is_owner,
            )[k]).fork == fork && comments_of(cs, fork, is_owner)[k].is_owner == is_owner,
    decreases cs.len(),
{
    if cs.len() > 0 {
        lemma_comments_of_fork(cs.drop_last(), fork, is_owner);
    }
}

/// Every comment of a thread carries the thread's fork (`main` when the
/// thread names none), and it is the uploader's exactly when that fork is
/// `owner`.
pub proof fn law_thread_comments_carry_fork_and_owner(t: Json)
    ensures
        forall|k: int|
            0 <= k < thread_comments(t).len() ==> (#[trigger] thread_comments(t)[k]).fork
                == thread_fork(t) && thread_comments(t)[k].is_owner == (thread_fork(t)
                == "owner"@),
        as_str(get(Some(t), "fork"@)) is None ==> thread_fork(t) == "main"@,
        as_str(get(Some(t), "fork"@)) matches Some(f) ==> thread_fork(t) == f,
{
    match as_array(get(Some(t), "comments"@)) {
        Some(cs) => lemma_comments_of_fork(cs, thread_fork(t), thread_fork(t) == "owner"@),
        None => {},
    }
}

pub open spec fn comment_views(v: Seq<Comment>) -> Seq<CommentV> {
    v.map_values(|c: Comment| c@)
}

fn strings_in(a: &Vec<Json>) -> (r: Vec<String>)
    ensures
        string_seq_view(r@) == strings_of(a@),
{
    let mut out: Vec<String> = Vec::new();
    let mut i: usize = 0;
    while i < a.len()
        invariant
            i <= a.len(),
            string_seq_view(out@) == strings_of(a@.take(i as int)),
        decreases a.len() - i,
    {
        assert(a@.take(i + 1).drop_last() =~= a@.take(i as int));
        assert(a@.take(i + 1).last() == a@[i as int]);
        match &a[i] {
            Json::Str(s) => {
                out.push(s.clone());
                assert(string_seq_view(out@) =~= strings_of(a@.take(i as int)).push(s@));
            },
            _ => {},
        }
        i += 1;
    }
    assert(a@.take(a.len() as int) =~= a@);
    out
}

fn join_with_spaces(v: &Vec<String>) -> (s: String)
    ensures
        s@ == join(string_seq_view(v@), " "@),
{
    let ghost sv = string_seq_view(v@);
    let mut s = String::new();
    let mut i: usize = 0;
    assert(sv.take(0) =~= Seq::<Seq<char>>::empty());
    while i < v.len()
        invariant
            i <= v.len(),
            sv == string_seq_view(v@),
            s@ == join(sv.take(i as int), " "@),
        decreases v.len() - i,
    {
        let ghost p = sv.take(i + 1);
        assert(p.drop_last() =~= sv.take(i as int));
        if i > 0 {
            s.push_str(" ");
        }
        s.push_str(v[i].as_str());
        proof {
            if i == 0 {
                assert(s@ =~= p[0]);
            } else {
                assert(s@ =~= join(sv.take(i as int), " "@) + " "@ + p.last());
            }
        }
        i += 1;
    }
    assert(sv.take(v.len() as int) =~= sv);
    s
}

/// One comment object of a thread; `None` when it has no string `body`.
pub fn parse_comment(c: &Json, fork: &str, is_owner: bool) -> (r: Option<Comment>)
    ensures
        match r {
            Some(cm) => spec_comment(*c, fork@, is_owner) == Some(cm@),
            None => spec_comment(*c, fork@, is_owner) is None,
        },
{
    let body = match str_of(get_field(c, "body")) {
        Some(b) => b,
        None => {
            return None;
        },
    };
    let no = match i64_of(get_field(c, "no")) {
        Some(n) => n,
        None => 0,
    };
    let vpos_ms = match i64_of(get_field(c, "vposMs")) {
        Some(n) => n,
        None => 0,
    };
    let id = match str_of(get_field(c, "id")) {
        Some(s) => s,
        None => {
            let mut s = String::new();
            s.push_str(fork);
            s.push_str("-");
            push_dec_i64(&mut s, no);
            s
        },
    };
    let commands = match array_of(get_field(c, "commands")) {
        Some(a) => strings_in(a),
        None => Vec::new(),
    };
    assert(string_seq_view(commands@) == match as_array(get(Some(*c), "commands"@)) {
        Some(a) => strings_of(a),
        None => Seq::empty(),
    }) by {
        if as_array(get(Some(*c), "commands"@)) is None {
            assert(string_seq_view(commands@) =~= Seq::<Seq<char>>::empty());
        }
    }
    let mail = join_with_spaces(&commands);
    let uid_json = get_field(c, "userId");
    let user_id = match str_of(uid_json) {
        Some(s) => Some(s),
        None => match i64_of(uid_json) {
            Some(n) => {
                let mut s = String::new();
                push_dec_i64(&mut s, n);
                Some(s)
            },
            None => None,
        },
    };
    let posted_at = str_of(get_field(c, "postedAt"));
    let nicoru_count = i64_of(get_field(c, "nicoruCount"));
    let score = i64_of(get_field(c, "score"));
    let mut fork_s = String::new();
    fork_s.push_str(fork);
    let cm = Comment {
        id,
        no,
        vpos_ms,
        content: body,
        mail,
        commands,
        user_id,
        posted_at,
        fork: fork_s,
        is_owner,
        nicoru_count,
        score,
    };
    assert(cm@ == spec_comment(*c, fork@, is_owner)->0);
    Some(cm)
}

fn push_thread_comments(out: &mut Vec<Comment>, thread: &Json)
    ensures
        comment_views(final(out)@) == comment_views(old(out)@) + thread_comments(*thread),
{
    let fork = match str_of(get_field(thread, "fork")) {
        Some(f) => f,
        None => {
            let mut s = String::new();
            s.push_str("main");
            s
        },
    };
    let is_owner = str_eq(fork.as_str(), "owner");
    let comments = match array_of(get_field(thread, "comments")) {
        Some(a) => a,
        None => {
            assert(comment_views(out@) =~= comment_views(out@) + Seq::<CommentV>::empty());
            return;
        },
    };
    let ghost base = comment_views(out@);
    let ghost f = thread_fork(*thread);
    assert(fork@ == f);
    let mut i: usize = 0;
    assert(comments@.take(0) =~= Seq::<Json>::empty());
    assert(base + comments_of(comments@.take(0), f, is_owner) =~= base);
    while i < comments.len()
        invariant
            i <= comments.len(),
            fork@ == f,
            is_owner == (f == "owner"@),
            comment_views(out@) == base + comments_of(comments@.take(i as int), f, is_owner),
        decreases comments.len() - i,
    {
        let ghost before = comment_views(out@);
        let ghost t = comments@.take(i + 1);
        assert(t.drop_last() =~= comments@.take(i as int));
        assert(t.last() == comments@[i as int]);
        match parse_comment(&comments[i], fork.as_str(), is_owner) {
            Some(cm) => {
                out.push(cm);
                assert(comment_views(out@) =~= before.push(cm@));
            },
            None => {},
        }
        i += 1;
    }
    assert(comments@.take(comments.len() as int) =~= comments@);
}

/// All comments of a threads answer, thread by thread in order.
pub fn parse_threads(envelope: &Json) -> (r: Vec<Comment>)
    ensures
        comment_views(r@) == spec_parse_threads(*envelope),
{
    let mut out: Vec<Comment> = Vec::new();
    let threads = match array_of(get_opt(get_field(envelope, "data"), "threads")) {
        Some(t) => t,
        None => {
            assert(comment_views(out@) =~= Seq::<CommentV>::empty());
            return out;
        },
    };
    let mut i: usize = 0;
    assert(comment_views(out@) =~= threads_comments(threads@.take(0)));
    while i < threads.len()
        invariant
            i <= threads.len(),
            comment_views(out@) == threads_comments(threads@.take(i as int)),
        decreases threads.len() - i,
    {
        let ghost t = threads@.take(i + 1);
        assert(t.drop_last() =~= threads@.take(i as int));
        assert(t.last() == threads@[i as int]);
        push_thread_comments(&mut out, &threads[i]);
        i += 1;
    }
    assert(threads@.take(threads.len() as int) =~= threads@);
    out
}

/// The threads endpoint of a comment server: `{server}/v1/threads`, with
/// trailing slashes of `server` removed.
pub open spec fn spec_threads_url(server: Seq<char>) -> Seq<char> {
    strip_trailing(server, '/') + "/v1/threads"@
}

pub fn threads_url(server: &str) -> (s: String)
    ensures
        s@ == spec_threads_url(server@),
{
    let c = chars_of(server);
    let t = strip_trailing_chars(&c, '/');
    let mut s = String::new();
    push_chars(&mut s, &t);
    s.push_str("/v1/threads");
    s
}

/// The error text for an answer whose `meta.status` is not 200.
pub open spec fn meta_status_message(status: u64) -> Seq<char> {
    "unexpected meta.status from threads API: "@ + dec(status as nat)
}

/// The comments of a threads answer: refused unless `meta.status` is 200 (a
/// missing status counts as 0).
pub fn threads_response(envelope: &Json) -> (r: Result<Vec<Comment>, ApiError>)
    ensures
        ({
            let st = match as_u64(get(get(Some(*envelope), "meta"@), "status"@)) {
                Some(n) => n,
                None => 0,
            };
            match r {
                Ok(v) => st == 200 && comment_views(v@) == spec_parse_threads(*envelope),
                Err(ApiError::ResponseShape(m)) => st != 200 && m@ == meta_status_message(st),
                Err(_) => false,
            }
        }),
{
    let st = match u64_of(get_opt(get_field(envelope, "meta"), "status")) {
        Some(n) => n,
        None => 0,
    };
    if st != 200 {
        let mut m = String::new();
        m.push_str("unexpected meta.status from threads API: ");
        push_dec(&mut m, st);
        return Err(ApiError::ResponseShape(m));
    }
    Ok(parse_threads(envelope))
}

} // verus!
