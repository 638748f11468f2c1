//! The wire protocol: the request line, the two headers that matter, the
//! query string, and the response writer.

use vstd::prelude::*;
use vstd::string::*;
use crate::text::{
    char_is_space, chars_end_with, chars_of, chars_start_with, copy_chars, decimal, ends_with,
    find, find_chars_from, is_space, parse_unsigned, parse_unsigned_chars, push_decimal,
    same_text, starts_with, string_of, texts,
};

verus! {

/// The text of a response: the status line, the three fixed headers, a
/// blank line and the body. `body_len` is the body's length in bytes.
pub open spec fn response_text(
    status: Seq<char>,
    body: Seq<char>,
    content_type: Seq<char>,
    body_len: nat,
) -> Seq<char> {
    status + "\r\nAccess-Control-Allow-Origin: *\r\nContent-Type: "@ + content_type
        + "\r\nContent-Length: "@ + decimal(body_len) + "\r\n\r\n"@ + body
}

/// Serialises a response. `Content-Length` is the byte length of `body`.
pub fn build_response(status: &str, body: &str, content_type: &str) -> (out: String)
    ensures
        out@ == response_text(status@, body@, content_type@, body.spec_bytes().len()),
{
    let mut out = String::from_str(status);
    out.append("\r\nAccess-Control-Allow-Origin: *\r\nContent-Type: ");
    out.append(content_type);
    out.append("\r\nContent-Length: ");
    push_decimal(&mut out, body.as_bytes().len() as u64);
    out.append("\r\n\r\n");
    out.append(body);
    out
}

/// What the writer sends for a handler's triple: nothing when all three
/// parts are empty, which is how a handler says that the connection has
/// been served already, and the serialised response otherwise.
pub open spec fn reply_text(
    status: Seq<char>,
    body: Seq<char>,
    content_type: Seq<char>,
    body_len: nat,
) -> Option<Seq<char>> {
    if status.len() == 0 && body.len() == 0 && content_type.len() == 0 {
        None
    } else {
        Some(response_text(status, body, content_type, body_len))
    }
}

/// The bytes to write for a handler's triple, if any are to be written.
pub fn render_reply(status: &str, body: &str, content_type: &str) -> (out: Option<String>)
    ensures
        match out {
            Some(text) => reply_text(status@, body@, content_type@, body.spec_bytes().len())
                == Some(text@),
            None => reply_text(status@, body@, content_type@, body.spec_bytes().len()) is None,
        },
{
    if status.is_empty() && body.is_empty() && content_type.is_empty() {
        None
    } else {
        Some(build_response(status, body, content_type))
    }
}

/// The views of a sequence of character vectors.
pub open spec fn rows(v: Seq<Vec<char>>) -> Seq<Seq<char>> {
    Seq::new(v.len(), |i: int| v[i]@)
}

/// The maximal runs of characters of `s` that are not white space, in
/// order: what is left of `s` when it is cut at white space and the empty
/// pieces are dropped.
pub open spec fn words(s: Seq<char>) -> Seq<Seq<char>>
    decreases s.len(),
{
    if s.len() == 0 {
        Seq::empty()
    } else {
        let before = words(s.drop_last());
        let c = s.last();
        if is_space(c) {
            before
        } else if s.len() >= 2 && !is_space(s[s.len() - 2]) {
            before.drop_last().push(before.last().push(c))
        } else {
            before.push(seq![c])
        }
    }
}

/// Cuts `cs` at white space and drops the empty pieces.
pub fn split_words(cs: &[char]) -> (out: Vec<Vec<char>>)
    ensures
        rows(out@) == words(cs@),
{
    let mut done: Vec<Vec<char>> = Vec::new();
    let mut current: Vec<char> = Vec::new();
    let mut i: usize = 0;
    proof {
        assert(rows(done@) =~= Seq::<Seq<char>>::empty());
    }
    while i < cs.len()
        invariant
            i <= cs@.len(),
            words(cs@.take(i as int)) =~= rows(done@) + (if current@.len() > 0 {
                seq![current@]
            } else {
                Seq::<Seq<char>>::empty()
            }),
            (current@.len() > 0) == (i > 0 && !is_space(cs@[i - 1])),
        decreases cs@.len() - i,
    {
        let c = cs[i];
        let ghost upto = cs@.take(i + 1);
        let ghost old_done = done@;
        let ghost old_current = current@;
        proof {
            assert(upto.drop_last() =~= cs@.take(i as int));
            assert(upto.last() == c);
            if i > 0 {
                assert(upto[upto.len() - 2] == cs@[i - 1]);
            }
        }
        if char_is_space(c) {
            if current.len() > 0 {
                done.push(current);
                current = Vec::new();
                proof {
                    assert(rows(done@) =~= rows(old_done) + seq![old_current]);
                }
            }
        } else {
            current.push(c);
            proof {
                if old_current.len() > 0 {
                    let before = rows(old_done) + seq![old_current];
                    assert(before.drop_last() =~= rows(old_done));
                    assert(before.last() == old_current);
                    assert(before.drop_last().push(before.last().push(c)) =~= rows(old_done)
                        + seq![current@]);
                } else {
                    assert(current@ =~= seq![c]);
                    assert(rows(old_done) + Seq::<Seq<char>>::empty() =~= rows(old_done));
                    assert(rows(old_done).push(seq![c]) =~= rows(old_done) + seq![current@]);
                }
            }
        }
        i += 1;
    }
    proof {
        assert(cs@.take(cs@.len() as int) =~= cs@);
    }
    if current.len() > 0 {
        let ghost old_done = done@;
        let ghost last = current@;
        done.push(current);
        proof {
            assert(rows(done@) =~= rows(old_done) + seq![last]);
        }
    } else {
        proof {
            assert(rows(done@) + Seq::<Seq<char>>::empty() =~= rows(done@));
        }
    }
    done
}

/// The two sides of `s` around its first `sep`: all of `s` and nothing
/// when `sep` does not occur.
pub open spec fn split_once(s: Seq<char>, sep: char) -> (Seq<char>, Seq<char>) {
    match find(s, seq![sep]) {
        Some(i) => (s.take(i), s.skip(i + 1)),
        None => (s, Seq::empty()),
    }
}

/// Index of the first `sep` in `cs` at or after `from`.
fn index_of_char(cs: &[char], sep: char, from: usize) -> (r: Option<usize>)
    ensures
        crate::text::position(r) == crate::text::find_from(cs@, seq![sep], from as int),
        r is Some ==> from <= r->0 < cs@.len(),
{
    let mut needle: Vec<char> = Vec::new();
    needle.push(sep);
    proof {
        assert(needle@ =~= seq![sep]);
    }
    find_chars_from(cs, needle.as_slice(), from)
}

/// Cuts `cs` at its first `sep`.
pub fn split_chars_once(cs: &[char], sep: char) -> (out: (Vec<char>, Vec<char>))
    ensures
        (out.0@, out.1@) == split_once(cs@, sep),
{
    let n: usize = cs.len();
    match index_of_char(cs, sep, 0) {
        Some(i) => {
            let left = copy_chars(cs, 0, i);
            let right = copy_chars(cs, i + 1, n);
            proof {
                assert(cs@.take(i as int) =~= cs@.subrange(0, i as int));
                assert(cs@.skip(i + 1) =~= cs@.subrange(i + 1, cs@.len() as int));
            }
            (left, right)
        },
        None => {
            let left = copy_chars(cs, 0, cs.len());
            proof {
                assert(cs@.subrange(0, cs@.len() as int) =~= cs@);
            }
            (left, Vec::new())
        },
    }
}

/// The pieces of `s` between occurrences of `sep`. There is always at
/// least one piece, and a piece may be empty.
pub open spec fn split_on(s: Seq<char>, sep: char) -> Seq<Seq<char>>
    decreases s.len(),
{
    if s.len() == 0 {
        seq![Seq::empty()]
    } else {
        let before = split_on(s.drop_last(), sep);
        if s.last() == sep {
            before.push(Seq::empty())
        } else {
            before.drop_last().push(before.last().push(s.last()))
        }
    }
}

/// Cuts `cs` at every `sep`.
pub fn split_chars_on(cs: &[char], sep: char) -> (out: Vec<Vec<char>>)
    ensures
        rows(out@) == split_on(cs@, sep),
{
    let mut done: Vec<Vec<char>> = Vec::new();
    let mut current: Vec<char> = Vec::new();
    let mut i: usize = 0;
    proof {
        assert(rows(done@) + seq![current@] =~= seq![Seq::<char>::empty()]);
    }
    while i < cs.len()
        invariant
            i <= cs@.len(),
            split_on(cs@.take(i as int), sep) =~= rows(done@) + seq![current@],
        decreases cs@.len() - i,
    {
        let c = cs[i];
        let ghost upto = cs@.take(i + 1);
        let ghost old_done = done@;
        let ghost old_current = current@;
        let ghost before = rows(old_done) + seq![old_current];
        proof {
            assert(upto.drop_last() =~= cs@.take(i as int));
            assert(upto.last() == c);
        }
        if c == sep {
            done.push(current);
            current = Vec::new();
            proof {
                assert(rows(done@) =~= before);
                assert(before.push(Seq::<char>::empty()) =~= rows(done@) + seq![current@]);
            }
        } else {
            current.push(c);
            proof {
                assert(before.drop_last() =~= rows(old_done));
                assert(before.last() == old_current);
                assert(before.drop_last().push(before.last().push(c)) =~= rows(done@)
                    + seq![current@]);
            }
        }
        i += 1;
    }
    proof {
        assert(cs@.take(cs@.len() as int) =~= cs@);
    }
    let ghost old_done = done@;
    let ghost last = current@;
    done.push(current);
    proof {
        assert(rows(done@) =~= rows(old_done) + seq![last]);
    }
    done
}

/// The parameters of a query string, in the order in which they were
/// written. When a key is written more than once, its last value counts.
#[derive(Debug)]
pub struct QueryParams {
    pub pairs: Vec<(String, String)>,
}

impl View for QueryParams {
    type V = Seq<(Seq<char>, Seq<char>)>;

    open spec fn view(&self) -> Seq<(Seq<char>, Seq<char>)> {
        Seq::new(self.pairs@.len(), |i: int| (self.pairs@[i].0@, self.pairs@[i].1@))
    }
}

/// The value of the last pair of `pairs` whose key is `key`.
pub open spec fn lookup(pairs: Seq<(Seq<char>, Seq<char>)>, key: Seq<char>) -> Option<Seq<char>>
    decreases pairs.len(),
{
    if pairs.len() == 0 {
        None
    } else if pairs.last().0 == key {
        Some(pairs.last().1)
    } else {
        lookup(pairs.drop_last(), key)
    }
}

/// The pairs that a query string writes: one for each piece between `&`,
/// cut at the piece's first `=`. A piece without `=` has an empty value.
/// Nothing is percent-decoded.
pub open spec fn query_pairs(query: Seq<char>) -> Seq<(Seq<char>, Seq<char>)> {
    let pieces = split_on(query, '&');
    Seq::new(pieces.len(), |i: int| split_once(pieces[i], '='))
}

impl QueryParams {
    /// The value given for `key`, if any: the last one when there are
    /// several.
    pub fn get(&self, key: &str) -> (r: Option<&String>)
        ensures
            match r {
                Some(v) => lookup(self@, key@) == Some(v@),
                None => lookup(self@, key@) is None,
            },
    {
        let mut i: usize = self.pairs.len();
        proof {
            assert(self@.take(self@.len() as int) =~= self@);
        }
        while i > 0
            invariant
                i <= self.pairs@.len(),
                lookup(self@, key@) == lookup(self@.take(i as int), key@),
            decreases i,
        {
            i -= 1;
            proof {
                let upto = self@.take(i + 1);
                assert(upto.last() == self@[i as int]);
                assert(upto.drop_last() =~= self@.take(i as int));
            }
            if same_text(self.pairs[i].0.as_str(), key) {
                return Some(&self.pairs[i].1);
            }
        }
        None
    }
}

/// Reads a query string into its parameters.
pub fn parse_query(query: &str) -> (out: QueryParams)
    ensures
        out@ == query_pairs(query@),
{
    let cs = chars_of(query);
    let pieces = split_chars_on(cs.as_slice(), '&');
    let mut pairs: Vec<(String, String)> = Vec::new();
    let mut i: usize = 0;
    while i < pieces.len()
        invariant
            i <= pieces@.len(),
            pairs@.len() == i,
            forall|j: int|
                0 <= j < i ==> (#[trigger] pairs@[j].0@, pairs@[j].1@) == split_once(
                    pieces@[j]@,
                    '=',
                ),
        decreases pieces@.len() - i,
    {
        let sides = split_chars_once(pieces[i].as_slice(), '=');
        let key = string_of(sides.0.as_slice());
        let value = string_of(sides.1.as_slice());
        pairs.push((key, value));
        i += 1;
    }
    let out = QueryParams { pairs };
    proof {
        let cut = split_on(query@, '&');
        assert(cut.len() == pieces@.len());
        assert forall|j: int| 0 <= j < pieces@.len() implies out@[j] == query_pairs(query@)[j] by {
            assert(rows(pieces@)[j] == pieces@[j]@);
            assert((out.pairs@[j].0@, out.pairs@[j].1@) == split_once(pieces@[j]@, '='));
        }
        assert(out@ =~= query_pairs(query@));
    }
    out
}

/// What follows `prefix` in `line`, when `line` begins with `prefix`.
pub open spec fn after_prefix(line: Seq<char>, prefix: Seq<char>) -> Option<Seq<char>> {
    if starts_with(line, prefix) {
        Some(line.skip(prefix.len() as int))
    } else {
        None
    }
}

/// The value of the last of `lines` that begins with `name`, which is
/// matched letter for letter.
pub open spec fn last_header(lines: Seq<Seq<char>>, name: Seq<char>) -> Option<Seq<char>>
    decreases lines.len(),
{
    if lines.len() == 0 {
        None
    } else {
        match after_prefix(lines.last(), name) {
            Some(value) => Some(value),
            None => last_header(lines.drop_last(), name),
        }
    }
}

/// The number of lines before the first empty one.
pub open spec fn head_len(lines: Seq<Seq<char>>) -> int
    decreases lines.len(),
{
    if lines.len() == 0 || lines[0].len() == 0 {
        0
    } else {
        1 + head_len(lines.drop_first())
    }
}

/// The lines of the request head: those before the first empty line.
pub open spec fn head_of(lines: Seq<Seq<char>>) -> Seq<Seq<char>> {
    lines.take(head_len(lines))
}

/// The head ends at the first empty line: no line of the head is empty,
/// and the line behind the head, if there is one, is.
pub proof fn lemma_head_len(lines: Seq<Seq<char>>)
    ensures
        0 <= head_len(lines) <= lines.len(),
        forall|i: int| 0 <= i < head_len(lines) ==> (#[trigger] lines[i]).len() > 0,
        head_len(lines) < lines.len() ==> lines[head_len(lines)].len() == 0,
    decreases lines.len(),
{
    if lines.len() == 0 || lines[0].len() == 0 {
    } else {
        let rest = lines.drop_first();
        lemma_head_len(rest);
        assert forall|i: int| 0 <= i < head_len(lines) implies (#[trigger] lines[i]).len() > 0 by {
            if i > 0 {
                assert(lines[i] == rest[i - 1]);
            }
        }
        if head_len(lines) < lines.len() {
            assert(lines[head_len(lines)] == rest[head_len(rest)]);
        }
    }
}

/// If the first `n` lines are not empty and line `n` is empty or missing,
/// the head has `n` lines.
pub proof fn lemma_head_len_is(lines: Seq<Seq<char>>, n: int)
    requires
        0 <= n <= lines.len(),
        forall|i: int| 0 <= i < n ==> (#[trigger] lines[i]).len() > 0,
        n < lines.len() ==> lines[n].len() == 0,
    ensures
        head_len(lines) == n,
    decreases lines.len(),
{
    if lines.len() == 0 || lines[0].len() == 0 {
    } else {
        let rest = lines.drop_first();
        assert forall|i: int| 0 <= i < n - 1 implies (#[trigger] rest[i]).len() > 0 by {
            assert(rest[i] == lines[i + 1]);
        }
        if n < lines.len() {
            assert(rest[n - 1] == lines[n]);
        }
        lemma_head_len_is(rest, n - 1);
    }
}

/// The declared length of the body: what the last `Content-Length: `
/// line gives when it is an unsigned decimal that fits, and zero
/// otherwise.
pub open spec fn content_length_of(head: Seq<Seq<char>>) -> nat {
    match last_header(head, "Content-Length: "@) {
        Some(value) => match parse_unsigned(value, usize::MAX as nat) {
            Some(n) => n,
            None => 0,
        },
        None => 0,
    }
}

/// The value of the last `Content-Type: ` line.
pub open spec fn content_type_of(head: Seq<Seq<char>>) -> Option<Seq<char>> {
    last_header(head, "Content-Type: "@)
}

/// The value of the last of the first `count` lines that begins with
/// `name`.
fn find_last_header(lines: &Vec<String>, count: usize, name: &str) -> (r: Option<Vec<char>>)
    requires
        count <= lines@.len(),
    ensures
        match r {
            Some(v) => last_header(texts(lines@).take(count as int), name@) == Some(v@),
            None => last_header(texts(lines@).take(count as int), name@) is None,
        },
{
    let prefix = chars_of(name);
    let mut i: usize = count;
    let ghost head = texts(lines@).take(count as int);
    proof {
        assert(head.take(count as int) =~= head);
    }
    while i > 0
        invariant
            i <= count <= lines@.len(),
            head == texts(lines@).take(count as int),
            prefix@ == name@,
            last_header(head, name@) == last_header(head.take(i as int), name@),
        decreases i,
    {
        i -= 1;
        let line = chars_of(lines[i].as_str());
        proof {
            let upto = head.take(i + 1);
            assert(upto.last() == line@);
            assert(upto.drop_last() =~= head.take(i as int));
        }
        if chars_start_with(line.as_slice(), prefix.as_slice()) {
            let value = copy_chars(line.as_slice(), prefix.len(), line.len());
            proof {
                assert(line@.skip(prefix@.len() as int) =~= line@.subrange(
                    prefix@.len() as int,
                    line@.len() as int,
                ));
            }
            return Some(value);
        }
    }
    None
}

/// The number of lines of `lines` before the first empty one.
fn count_head_lines(lines: &Vec<String>) -> (n: usize)
    ensures
        n == head_len(texts(lines@)),
        n <= lines@.len(),
{
    let mut n: usize = 0;
    while n < lines.len() && !lines[n].as_str().is_empty()
        invariant
            n <= lines@.len(),
            forall|i: int| 0 <= i < n ==> (#[trigger] texts(lines@)[i]).len() > 0,
        decreases lines@.len() - n,
    {
        n += 1;
    }
    proof {
        lemma_head_len_is(texts(lines@), n as int);
    }
    n
}

/// The handlers that a path can name.
#[derive(Clone, Copy, Debug, PartialEq, Eq, Structural)]
pub enum Route {
    Exercises,
    Login,
    Register,
    History,
    WorkoutsPerWeek,
    PreviousSets,
    OneRepMax,
    Templates,
    SaveTemplate,
    Workout,
    AddExercise,
    UploadMetadata,
    UploadVideo,
    NotFound,
}

/// The handler for `path`. A path names a handler only when it equals the
/// handler's path letter for letter; every other path is `NotFound`.
pub open spec fn route_of(path: Seq<char>) -> Route {
    if path == "/exercises"@ {
        Route::Exercises
    } else if path == "/login"@ {
        Route::Login
    } else if path == "/register"@ {
        Route::Register
    } else if path == "/history"@ {
        Route::History
    } else if path == "/workouts_per_week"@ {
        Route::WorkoutsPerWeek
    } else if path == "/previous_sets"@ {
        Route::PreviousSets
    } else if path == "/one_rep_max"@ {
        Route::OneRepMax
    } else if path == "/templates"@ {
        Route::Templates
    } else if path == "/save_template"@ {
        Route::SaveTemplate
    } else if path == "/workout"@ {
        Route::Workout
    } else if path == "/add_exercise"@ {
        Route::AddExercise
    } else if path == "/upload/metadata"@ {
        Route::UploadMetadata
    } else if path == "/upload/video"@ {
        Route::UploadVideo
    } else {
        Route::NotFound
    }
}

/// The handler for `path`.
pub fn route_for(path: &str) -> (route: Route)
    ensures
        route == route_of(path@),
{
    if same_text(path, "/exercises") {
        Route::Exercises
    } else if same_text(path, "/login") {
        Route::Login
    } else if same_text(path, "/register") {
        Route::Register
    } else if same_text(path, "/history") {
        Route::History
    } else if same_text(path, "/workouts_per_week") {
        Route::WorkoutsPerWeek
    } else if same_text(path, "/previous_sets") {
        Route::PreviousSets
    } else if same_text(path, "/one_rep_max") {
        Route::OneRepMax
    } else if same_text(path, "/templates") {
        Route::Templates
    } else if same_text(path, "/save_template") {
        Route::SaveTemplate
    } else if same_text(path, "/workout") {
        Route::Workout
    } else if same_text(path, "/add_exercise") {
        Route::AddExercise
    } else if same_text(path, "/upload/metadata") {
        Route::UploadMetadata
    } else if same_text(path, "/upload/video") {
        Route::UploadVideo
    } else {
        Route::NotFound
    }
}

/// `s` without every leading repetition of `prefix`.
pub open spec fn strip_all(s: Seq<char>, prefix: Seq<char>) -> Seq<char>
    decreases s.len(),
{
    if prefix.len() > 0 && starts_with(s, prefix) {
        strip_all(s.skip(prefix.len() as int), prefix)
    } else {
        s
    }
}

/// `cs` without every leading repetition of `prefix`.
pub fn strip_all_chars(cs: &[char], prefix: &[char]) -> (out: Vec<char>)
    ensures
        out@ == strip_all(cs@, prefix@),
{
    let n: usize = cs.len();
    let step: usize = prefix.len();
    let mut k: usize = 0;
    proof {
        assert(cs@.skip(0) =~= cs@);
    }
    while step > 0 && step <= n - k && chars_occur_at_offset(cs, prefix, k)
        invariant
            k <= n == cs@.len(),
            step == prefix@.len(),
            strip_all(cs@, prefix@) == strip_all(cs@.skip(k as int), prefix@),
        decreases n - k,
    {
        proof {
            assert(cs@.skip(k as int).skip(step as int) =~= cs@.skip(k + step));
        }
        k += step;
    }
    proof {
        assert(cs@.skip(k as int) =~= cs@.subrange(k as int, n as int));
    }
    copy_chars(cs, k, n)
}

/// Whether what is left of `cs` after its first `k` characters begins
/// with `prefix`.
fn chars_occur_at_offset(cs: &[char], prefix: &[char], k: usize) -> (r: bool)
    requires
        k + prefix@.len() <= cs@.len(),
    ensures
        r == starts_with(cs@.skip(k as int), prefix@),
{
    proof {
        assert(cs@.skip(k as int).subrange(0, prefix@.len() as int) =~= cs@.subrange(
            k as int,
            k + prefix@.len(),
        ));
    }
    crate::text::chars_occur_at(cs, prefix, k)
}

/// Whether `path` asks for a processed file.
pub open spec fn is_download(path: Seq<char>) -> bool {
    starts_with(path, "/processed/"@)
}

/// Where the file that `path` asks for lies: the output directory, then
/// what follows the leading `/processed/`, however often that is repeated.
pub open spec fn download_file_path(path: Seq<char>) -> Seq<char> {
    "./processed/"@ + strip_all(path, "/processed/"@)
}

/// The media type announced for a served file.
pub open spec fn mime_of(file_path: Seq<char>) -> Seq<char> {
    if ends_with(file_path, ".mp4"@) {
        "video/mp4"@
    } else {
        "application/octet-stream"@
    }
}

/// The media type announced for a served file.
pub fn mime_type_for(file_path: &str) -> (mime: &'static str)
    ensures
        mime@ == mime_of(file_path@),
{
    let cs = chars_of(file_path);
    let suffix = chars_of(".mp4");
    if chars_end_with(cs.as_slice(), suffix.as_slice()) {
        "video/mp4"
    } else {
        "application/octet-stream"
    }
}

/// The head of the response that carries a served file of `len` bytes.
pub open spec fn download_head_text(mime: Seq<char>, len: nat) -> Seq<char> {
    "HTTP/1.1 200 OK\r\nAccess-Control-Allow-Origin: *\r\nContent-Type: "@ + mime
        + "\r\nContent-Length: "@ + decimal(len) + "\r\n\r\n"@
}

/// What to do for a request for a processed file.
#[derive(Debug)]
pub struct Served {
    /// The text to write first: the head of a 200 response, or a whole
    /// 404 response.
    pub head: String,
    /// Whether the file's bytes follow the head.
    pub send_file: bool,
    /// Whether the file is to be deleted once it has been sent.
    pub delete_file: bool,
}

/// What a `Served` holds.
pub struct ServedModel {
    pub head: Seq<char>,
    pub send_file: bool,
    pub delete_file: bool,
}

impl View for Served {
    type V = ServedModel;

    open spec fn view(&self) -> ServedModel {
        ServedModel { head: self.head@, send_file: self.send_file, delete_file: self.delete_file }
    }
}

/// The whole response to a request for a file that is not there.
pub open spec fn missing_file_text() -> Seq<char> {
    response_text(
        "HTTP/1.1 404 NOT FOUND"@,
        "404 NOT FOUND"@,
        "text/html"@,
        "404 NOT FOUND".spec_bytes().len(),
    )
}

/// The answer to a request for the processed file at `file_path`, of
/// which `contents` are the bytes, or `None` when it could not be read. A
/// file that was read is sent and then deleted; a missing one yields 404.
pub open spec fn served(file_path: Seq<char>, contents: Option<Seq<u8>>) -> ServedModel {
    match contents {
        Some(bytes) => ServedModel {
            head: download_head_text(mime_of(file_path), bytes.len()),
            send_file: true,
            delete_file: true,
        },
        None => ServedModel { head: missing_file_text(), send_file: false, delete_file: false },
    }
}

/// The bytes of an optional slice.
pub open spec fn optional_bytes(contents: Option<&[u8]>) -> Option<Seq<u8>> {
    match contents {
        Some(bytes) => Some(bytes@),
        None => None,
    }
}

/// Decides the answer to a request for the processed file at `file_path`.
/// `contents` holds the file's bytes, or `None` when it could not be read.
pub fn serve_download(file_path: &str, contents: Option<&[u8]>) -> (out: Served)
    ensures
        out@ == served(file_path@, optional_bytes(contents)),
{
    match contents {
        Some(bytes) => {
            let mut head = String::from_str(
                "HTTP/1.1 200 OK\r\nAccess-Control-Allow-Origin: *\r\nContent-Type: ",
            );
            head.append(mime_type_for(file_path));
            head.append("\r\nContent-Length: ");
            push_decimal(&mut head, bytes.len() as u64);
            head.append("\r\n\r\n");
            Served { head, send_file: true, delete_file: true }
        },
        None => Served {
            head: build_response("HTTP/1.1 404 NOT FOUND", "404 NOT FOUND", "text/html"),
            send_file: false,
            delete_file: false,
        },
    }
}

/// What a directory holds for a path, if it holds anything.
pub open spec fn file_at(disk: Map<Seq<char>, Seq<u8>>, file_path: Seq<char>) -> Option<Seq<u8>> {
    if disk.contains_key(file_path) {
        Some(disk[file_path])
    } else {
        None
    }
}

/// The output directory after a request for the file at `file_path` has
/// been answered: without the file, if it was served.
pub open spec fn after_download(disk: Map<Seq<char>, Seq<u8>>, file_path: Seq<char>) -> Map<
    Seq<char>,
    Seq<u8>,
> {
    if served(file_path, file_at(disk, file_path)).delete_file {
        disk.remove(file_path)
    } else {
        disk
    }
}

/// A processed file is downloaded once: the first request for a file that
/// is there is answered with the file, and the next request for it with
/// 404.
pub proof fn lemma_download_is_served_once(disk: Map<Seq<char>, Seq<u8>>, file_path: Seq<char>)
    requires
        disk.contains_key(file_path),
    ensures
        served(file_path, file_at(disk, file_path)).send_file,
        served(file_path, file_at(disk, file_path)).head == download_head_text(
            mime_of(file_path),
            disk[file_path].len(),
        ),
        served(file_path, file_at(after_download(disk, file_path), file_path)).head
            == missing_file_text(),
        !served(file_path, file_at(after_download(disk, file_path), file_path)).send_file,
{
}

/// The second word of the request line, when the line has at least three
/// words. The request line is the first line of the head, or the empty
/// line when the head has none.
pub open spec fn target_of(lines: Seq<Seq<char>>) -> Option<Seq<char>> {
    let head = head_of(lines);
    let line = if head.len() > 0 {
        head[0]
    } else {
        Seq::<char>::empty()
    };
    let parts = words(line);
    if parts.len() < 3 {
        None
    } else {
        Some(parts[1])
    }
}

/// A request as far as its head tells.
#[derive(Debug)]
pub enum Request {
    /// The request line has fewer than three words. The answer is 400 and
    /// the connection is closed.
    Malformed,
    /// A processed file is asked for.
    Download { file_path: String },
    /// The request goes to a handler.
    Routed {
        route: Route,
        query_params: QueryParams,
        content_length: usize,
        content_type: Option<String>,
    },
}

/// The view of an optional string.
pub open spec fn optional_text(s: Option<String>) -> Option<Seq<char>> {
    match s {
        Some(text) => Some(text@),
        None => None,
    }
}

/// Whether `request` is what `lines` ask for.
pub open spec fn is_request_of(request: Request, lines: Seq<Seq<char>>) -> bool {
    match target_of(lines) {
        None => request is Malformed,
        Some(target) => {
            let path = split_once(target, '?').0;
            let query = split_once(target, '?').1;
            if is_download(path) {
                &&& request is Download
                &&& request->file_path@ == download_file_path(path)
            } else {
                &&& request is Routed
                &&& request->route == route_of(path)
                &&& request->query_params@ == query_pairs(query)
                &&& request->content_length == content_length_of(head_of(lines))
                &&& optional_text(request->content_type) == content_type_of(head_of(lines))
            }
        },
    }
}

/// Reads the head of a request from its lines, given without their line
/// ends. Lines after the first empty one are ignored.
pub fn parse_request(lines: &Vec<String>) -> (request: Request)
    ensures
        is_request_of(request, texts(lines@)),
{
    let count = count_head_lines(lines);
    let ghost head = head_of(texts(lines@));
    let line: Vec<char> = if count > 0 {
        chars_of(lines[0].as_str())
    } else {
        Vec::new()
    };
    proof {
        if count > 0 {
            assert(head[0] == lines@[0]@);
        } else {
            assert(line@ =~= Seq::<char>::empty());
        }
    }
    let parts = split_words(line.as_slice());
    if parts.len() < 3 {
        return Request::Malformed;
    }
    proof {
        assert(rows(parts@)[1] == parts@[1]@);
    }
    let sides = split_chars_once(parts[1].as_slice(), '?');
    let path = sides.0;
    let query = sides.1;
    let marker = chars_of("/processed/");
    if chars_start_with(path.as_slice(), marker.as_slice()) {
        let name = strip_all_chars(path.as_slice(), marker.as_slice());
        let mut file_path = String::from_str("./processed/");
        file_path.append(string_of(name.as_slice()).as_str());
        return Request::Download { file_path };
    }
    let route = route_for(string_of(path.as_slice()).as_str());
    let query_params = parse_query(string_of(query.as_slice()).as_str());
    let content_length: usize = match find_last_header(lines, count, "Content-Length: ") {
        Some(value) => match parse_unsigned_chars(value.as_slice(), usize::MAX as u64) {
            Some(n) => n as usize,
            None => 0,
        },
        None => 0,
    };
    let content_type: Option<String> = match find_last_header(lines, count, "Content-Type: ") {
        Some(value) => Some(string_of(value.as_slice())),
        None => None,
    };
    Request::Routed { route, query_params, content_length, content_type }
}

} // verus!
