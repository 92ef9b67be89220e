//! The request line of the stream protocol and the file it names.
//!
//! A request is the word `GET`, a blank, a path and a line break. Of the path
//! only its plain components count: empty ones, `.` and `..` are dropped, so
//! that the file always lies below the content root.

use vstd::prelude::*;
use crate::bytes::{append, copy_range, has_at, matches_at};

verus! {

/// The byte that parts the components of a path.
pub const SLASH: u8 = 0x2f;

/// The byte of which the names `.` and `..` are made.
pub const DOT: u8 = 0x2e;

/// The byte that ends a line.
pub const LINE_FEED: u8 = 0x0a;

/// The byte that may stand before the end of a line.
pub const CARRIAGE_RETURN: u8 = 0x0d;

/// What a request starts with: the ASCII letters `GET` and a blank.
pub open spec fn request_prefix() -> Seq<u8> {
    seq![0x47u8, 0x45u8, 0x54u8, 0x20u8]
}

/// The body sent where the file cannot be read: `Not Found!` and a line break.
pub open spec fn not_found() -> Seq<u8> {
    seq![
        0x4eu8, 0x6fu8, 0x74u8, 0x20u8, 0x46u8, 0x6fu8, 0x75u8, 0x6eu8, 0x64u8, 0x21u8, 0x0du8,
        0x0au8,
    ]
}

/// The number of bytes of `s` that stand before the first `stop`, or all of
/// them where there is none.
pub open spec fn span(s: Seq<u8>, stop: u8) -> int
    decreases s.len(),
{
    if s.len() == 0 || s[0] == stop {
        0
    } else {
        1 + span(s.drop_first(), stop)
    }
}

/// `span` is the place of the first `stop`: no byte before it is a `stop`, and
/// it is the end of `s` or a `stop` stands there.
pub proof fn lemma_span(s: Seq<u8>, stop: u8)
    ensures
        0 <= span(s, stop) <= s.len(),
        forall|j: int| 0 <= j < span(s, stop) ==> s[j] != stop,
        span(s, stop) < s.len() ==> s[span(s, stop)] == stop,
    decreases s.len(),
{
    if s.len() == 0 || s[0] == stop {
    } else {
        let t = s.drop_first();
        lemma_span(t, stop);
        assert forall|j: int| 0 <= j < span(s, stop) implies s[j] != stop by {
            if j > 0 {
                assert(s[j] == t[j - 1]);
            }
        }
        assert(s[span(s, stop)] == t[span(t, stop)] || span(s, stop) == s.len());
    }
}

/// Finds the first `stop` at or after `from`.
pub fn find(s: &[u8], from: usize, stop: u8) -> (at: usize)
    requires
        from <= s@.len(),
    ensures
        at == from + span(s@.skip(from as int), stop),
        from <= at <= s@.len(),
{
    let mut at: usize = from;
    while at < s.len() && s[at] != stop
        invariant
            from <= at <= s@.len(),
            from + span(s@.skip(from as int), stop) == at + span(s@.skip(at as int), stop),
        decreases s@.len() - at,
    {
        assert(s@.skip(at as int).drop_first() == s@.skip(at + 1));
        at += 1;
    }
    proof {
        lemma_span(s@.skip(from as int), stop);
    }
    at
}

/// The first line of a text, without its line break: the bytes before the
/// first line feed, less a carriage return that stands right before it.
pub open spec fn first_line(text: Seq<u8>) -> Seq<u8> {
    let end = span(text, LINE_FEED);
    if end < text.len() && end > 0 && text[end - 1] == CARRIAGE_RETURN {
        text.take(end - 1)
    } else {
        text.take(end)
    }
}

/// The path that a request names: the first line of what follows the prefix.
/// A payload that does not start with the prefix, or holds nothing after it,
/// is no request.
pub open spec fn requested(payload: Seq<u8>) -> Option<Seq<u8>> {
    if payload.len() > 4 && matches_at(payload, 0, request_prefix()) {
        Some(first_line(payload.skip(4)))
    } else {
        None
    }
}

/// The prefix of a request as bytes.
pub fn prefix_bytes() -> (r: [u8; 4])
    ensures
        r@ == request_prefix(),
{
    let r: [u8; 4] = [0x47, 0x45, 0x54, 0x20];
    assert(r@ =~= request_prefix());
    r
}

/// Reads the path that a request names.
pub fn request_path(payload: &[u8]) -> (r: Option<Vec<u8>>)
    ensures
        r is Some == requested(payload@) is Some,
        r matches Some(path) ==> requested(payload@) == Some(path@),
{
    let prefix = prefix_bytes();
    if payload.len() <= 4 || !has_at(payload, 0, prefix.as_slice()) {
        return None;
    }
    let end = find(payload, 4, LINE_FEED);
    let ghost text = payload@.skip(4);
    assert(end - 4 == span(text, LINE_FEED));
    let stop: usize = if end < payload.len() && end > 4 && payload[end - 1] == CARRIAGE_RETURN {
        end - 1
    } else {
        end
    };
    let path = copy_range(payload, 4, stop);
    assert(payload@.subrange(4, stop as int) == text.take(stop - 4));
    Some(path)
}

/// A plain component: not empty, not `.` and not `..`.
pub open spec fn is_plain(name: Seq<u8>) -> bool {
    &&& name.len() > 0
    &&& name != seq![DOT]
    &&& name != seq![DOT, DOT]
}

/// The plain components of a path, in their order: the path is cut at every
/// slash, and the pieces that are not plain are dropped.
pub open spec fn plain_components(path: Seq<u8>) -> Seq<Seq<u8>>
    decreases path.len(),
{
    let end = span(path, SLASH);
    let name = path.take(end);
    let head = if is_plain(name) {
        seq![name]
    } else {
        Seq::empty()
    };
    if 0 <= end < path.len() {
        head + plain_components(path.skip(end + 1))
    } else {
        head
    }
}

/// A path with one more component: a slash is put between them unless the path
/// is empty or ends with one.
pub open spec fn pushed(path: Seq<u8>, name: Seq<u8>) -> Seq<u8> {
    if path.len() > 0 && path.last() != SLASH {
        path + seq![SLASH] + name
    } else {
        path + name
    }
}

/// A path with more components, one after the other.
pub open spec fn pushed_all(path: Seq<u8>, names: Seq<Seq<u8>>) -> Seq<u8>
    decreases names.len(),
{
    if names.len() == 0 {
        path
    } else {
        pushed_all(pushed(path, names.first()), names.drop_first())
    }
}

/// The file that a requested path names below the content root.
pub open spec fn resolved(root: Seq<u8>, path: Seq<u8>) -> Seq<u8> {
    pushed_all(root, plain_components(path))
}

/// Tests whether `path[from..to]` is a plain component.
fn plain_at(path: &[u8], from: usize, to: usize) -> (r: bool)
    requires
        from <= to <= path@.len(),
    ensures
        r == is_plain(path@.subrange(from as int, to as int)),
{
    let ghost name = path@.subrange(from as int, to as int);
    let len: usize = to - from;
    if len == 0 {
        false
    } else if len == 1 {
        assert(name[0] == path@[from as int]);
        assert(name == seq![DOT] <==> name[0] == DOT) by {
            if name[0] == DOT {
                assert(name =~= seq![DOT]);
            } else {
                assert(seq![DOT][0] == DOT);
            }
        }
        path[from] != DOT
    } else if len == 2 {
        assert(name[0] == path@[from as int] && name[1] == path@[from + 1]);
        assert(name == seq![DOT, DOT] <==> (name[0] == DOT && name[1] == DOT)) by {
            if name[0] == DOT && name[1] == DOT {
                assert(name =~= seq![DOT, DOT]);
            } else {
                assert(seq![DOT, DOT][0] == DOT && seq![DOT, DOT][1] == DOT);
            }
        }
        assert(seq![DOT].len() == 1);
        !(path[from] == DOT && path[from + 1] == DOT)
    } else {
        assert(seq![DOT].len() == 1);
        assert(seq![DOT, DOT].len() == 2);
        true
    }
}

/// Resolving goes component by component: the first piece of the path is
/// pushed where it is plain, and the rest of the path follows.
pub proof fn lemma_resolve_step(file: Seq<u8>, path: Seq<u8>)
    ensures
        pushed_all(file, plain_components(path)) == ({
            let end = span(path, SLASH);
            let name = path.take(end);
            let next = if is_plain(name) {
                pushed(file, name)
            } else {
                file
            };
            if end < path.len() {
                pushed_all(next, plain_components(path.skip(end + 1)))
            } else {
                next
            }
        }),
{
    lemma_span(path, SLASH);
    let end = span(path, SLASH);
    let name = path.take(end);
    let tail = if end < path.len() {
        plain_components(path.skip(end + 1))
    } else {
        Seq::empty()
    };
    assert(pushed_all(file, Seq::empty()) == file);
    if is_plain(name) {
        let names = seq![name] + tail;
        assert(plain_components(path) =~= names);
        assert(names.first() == name);
        assert(names.drop_first() =~= tail);
        assert(pushed_all(file, names) == pushed_all(pushed(file, name), tail));
        assert(pushed_all(pushed(file, name), Seq::empty()) == pushed(file, name));
    } else {
        assert(plain_components(path) =~= tail);
    }
}

/// Resolves a requested path against the content root.
pub fn resolve_path(root: &[u8], path: &[u8]) -> (file: Vec<u8>)
    ensures
        file@ == resolved(root@, path@),
{
    let mut file: Vec<u8> = Vec::new();
    append(&mut file, root);
    let mut from: usize = 0;
    assert(path@.skip(0) == path@);
    loop
        invariant
            from <= path@.len(),
            resolved(root@, path@) == pushed_all(file@, plain_components(path@.skip(from as int))),
        decreases path@.len() - from,
    {
        let to = find(path, from, SLASH);
        let ghost rest = path@.skip(from as int);
        let ghost before = file@;
        proof {
            lemma_resolve_step(before, rest);
            assert(rest.take(to - from) == path@.subrange(from as int, to as int));
        }
        if plain_at(path, from, to) {
            if file.len() > 0 && file[file.len() - 1] != SLASH {
                file.push(SLASH);
            }
            let ghost with_slash = file@;
            let piece = copy_range(path, from, to);
            append(&mut file, piece.as_slice());
            assert(file@ == pushed(before, rest.take(to - from))) by {
                if before.len() > 0 && before.last() != SLASH {
                    assert(with_slash == before + seq![SLASH]);
                }
            }
        }
        if to >= path.len() {
            return file;
        }
        assert(rest.skip(to - from + 1) == path@.skip(to + 1));
        from = to + 1;
    }
}

/// The file that a stream's payload asks for, below `root`; `None` where the
/// payload is no request.
pub fn handle_stream(payload: &[u8], root: &[u8]) -> (file: Option<Vec<u8>>)
    ensures
        file is Some == requested(payload@) is Some,
        file matches Some(name) ==> name@ == resolved(root@, requested(payload@)->0),
{
    match request_path(payload) {
        Some(path) => Some(resolve_path(root, path.as_slice())),
        None => None,
    }
}

/// Every component that resolving keeps is plain and holds no slash.
pub proof fn lemma_components_are_plain(path: Seq<u8>)
    ensures
        forall|i: int|
            0 <= i < plain_components(path).len() ==> {
                &&& is_plain(#[trigger] plain_components(path)[i])
                &&& !plain_components(path)[i].contains(SLASH)
            },
    decreases path.len(),
{
    lemma_span(path, SLASH);
    let end = span(path, SLASH);
    let name = path.take(end);
    let head = if is_plain(name) {
        seq![name]
    } else {
        Seq::empty()
    };
    assert(!name.contains(SLASH)) by {
        if name.contains(SLASH) {
            let j = choose|j: int| 0 <= j < name.len() && name[j] == SLASH;
            assert(path[j] == SLASH);
        }
    }
    if end < path.len() {
        let tail = plain_components(path.skip(end + 1));
        lemma_components_are_plain(path.skip(end + 1));
        assert(plain_components(path) =~= head + tail);
        assert forall|i: int| 0 <= i < plain_components(path).len() implies {
            &&& is_plain(#[trigger] plain_components(path)[i])
            &&& !plain_components(path)[i].contains(SLASH)
        } by {
            if i >= head.len() {
                assert(plain_components(path)[i] == tail[i - head.len()]);
            }
        }
    } else {
        assert(plain_components(path) =~= head);
    }
}

/// Pushing components only adds to a path.
pub proof fn lemma_pushed_all_extends(path: Seq<u8>, names: Seq<Seq<u8>>)
    ensures
        path.is_prefix_of(pushed_all(path, names)),
    decreases names.len(),
{
    if names.len() > 0 {
        let next = pushed(path, names.first());
        lemma_pushed_all_extends(next, names.drop_first());
        let all = pushed_all(next, names.drop_first());
        assert(path.is_prefix_of(next));
        assert(path =~= all.subrange(0, path.len() as int)) by {
            assert(next == all.subrange(0, next.len() as int));
        }
    }
}

/// Plain names, each with a slash before it.
pub open spec fn joined(names: Seq<Seq<u8>>) -> Seq<u8>
    decreases names.len(),
{
    if names.len() == 0 {
        Seq::empty()
    } else {
        seq![SLASH] + names.first() + joined(names.drop_first())
    }
}

/// Every name is plain and holds no slash.
pub open spec fn all_plain(names: Seq<Seq<u8>>) -> bool {
    forall|i: int|
        0 <= i < names.len() ==> is_plain(#[trigger] names[i]) && !names[i].contains(SLASH)
}

/// Behind bytes that hold no `stop`, the first `stop` is found in what
/// follows.
pub proof fn lemma_span_append(head: Seq<u8>, tail: Seq<u8>, stop: u8)
    requires
        !head.contains(stop),
    ensures
        span(head + tail, stop) == head.len() + span(tail, stop),
    decreases head.len(),
{
    if head.len() == 0 {
        assert(head + tail =~= tail);
    } else {
        assert(head[0] != stop) by {
            if head[0] == stop {
                assert(head.contains(stop));
            }
        }
        assert((head + tail)[0] == head[0]);
        assert((head + tail).drop_first() =~= head.drop_first() + tail);
        assert(!head.drop_first().contains(stop)) by {
            if head.drop_first().contains(stop) {
                let j = choose|j: int| 0 <= j < head.drop_first().len() && head.drop_first()[j] == stop;
                assert(head[j + 1] == stop);
                assert(head.contains(stop));
            }
        }
        lemma_span_append(head.drop_first(), tail, stop);
    }
}

/// Plain names that are joined with slashes are found again when the result
/// is cut at its slashes.
pub proof fn lemma_components_of_joined(names: Seq<Seq<u8>>)
    requires
        all_plain(names),
    ensures
        plain_components(joined(names)) == names,
        names.len() > 0 ==> plain_components(joined(names).skip(1)) == names,
    decreases names.len(),
{
    let text = joined(names);
    if names.len() == 0 {
        assert(text.take(0) =~= Seq::<u8>::empty());
        assert(plain_components(text) =~= names);
    } else {
        let name = names.first();
        let rest = names.drop_first();
        assert(is_plain(name) && !name.contains(SLASH));
        assert(all_plain(rest)) by {
            assert forall|i: int| 0 <= i < rest.len() implies is_plain(#[trigger] rest[i])
                && !rest[i].contains(SLASH) by {
                assert(rest[i] == names[i + 1]);
            }
        }
        lemma_components_of_joined(rest);
        let body = name + joined(rest);
        assert(text.skip(1) =~= body);
        assert(text[0] == SLASH);
        assert(span(text, SLASH) == 0);
        assert(text.take(0) =~= Seq::<u8>::empty());
        assert(plain_components(text) =~= plain_components(body));
        lemma_span_append(name, joined(rest), SLASH);
        lemma_span(joined(rest), SLASH);
        if rest.len() == 0 {
            assert(joined(rest) =~= Seq::<u8>::empty());
            assert(body =~= name);
            assert(span(body, SLASH) == name.len());
            assert(body.take(name.len() as int) =~= name);
            assert(plain_components(body) =~= seq![name]);
            assert(names =~= seq![name]);
        } else {
            assert(joined(rest)[0] == SLASH);
            assert(span(joined(rest), SLASH) == 0);
            assert(span(body, SLASH) == name.len());
            assert(body.take(name.len() as int) =~= name);
            assert(body.skip(name.len() as int + 1) =~= joined(rest).skip(1));
            assert(plain_components(body) =~= seq![name] + plain_components(joined(rest).skip(1)));
            assert(names =~= seq![name] + rest);
        }
    }
}

/// Pushing plain names appends them, each behind a slash; only a path that is
/// empty or ends with a slash gets no slash before the first name.
pub proof fn lemma_pushed_all_joins(path: Seq<u8>, names: Seq<Seq<u8>>)
    requires
        all_plain(names),
    ensures
        pushed_all(path, names) == if names.len() > 0 && !(path.len() > 0 && path.last() != SLASH) {
            path + joined(names).skip(1)
        } else {
            path + joined(names)
        },
    decreases names.len(),
{
    if names.len() == 0 {
        assert(path + joined(names) =~= path);
    } else {
        let name = names.first();
        let rest = names.drop_first();
        assert(is_plain(name) && !name.contains(SLASH));
        assert(all_plain(rest)) by {
            assert forall|i: int| 0 <= i < rest.len() implies is_plain(#[trigger] rest[i])
                && !rest[i].contains(SLASH) by {
                assert(rest[i] == names[i + 1]);
            }
        }
        let next = pushed(path, name);
        assert(next.len() > 0 && next.last() != SLASH) by {
            assert(next.last() == name.last());
            if name.last() == SLASH {
                assert(name[name.len() - 1] == SLASH);
                assert(name.contains(SLASH));
            }
        }
        lemma_pushed_all_joins(next, rest);
        assert(pushed_all(path, names) == next + joined(rest));
        let text = joined(names);
        assert(text.skip(1) =~= name + joined(rest));
        if path.len() > 0 && path.last() != SLASH {
            assert(next + joined(rest) =~= path + text);
        } else {
            assert(next + joined(rest) =~= path + text.skip(1));
        }
    }
}

/// Whatever path is requested, what stands behind the root in the name of the
/// file has the plain components of the request, and so none that is `..`.
pub proof fn lemma_resolved_components(root: Seq<u8>, path: Seq<u8>)
    ensures
        root.is_prefix_of(resolved(root, path)),
        plain_components(resolved(root, path).skip(root.len() as int)) == plain_components(path),
        all_plain(plain_components(path)),
{
    let names = plain_components(path);
    lemma_components_are_plain(path);
    lemma_pushed_all_extends(root, names);
    lemma_pushed_all_joins(root, names);
    lemma_components_of_joined(names);
    let file = resolved(root, path);
    if names.len() > 0 && !(root.len() > 0 && root.last() != SLASH) {
        assert(file.skip(root.len() as int) =~= joined(names).skip(1));
    } else {
        assert(file.skip(root.len() as int) =~= joined(names));
    }
}

/// The body of the response: the file's content, or the fixed body where the
/// file could not be read.
pub fn response_body(content: Option<Vec<u8>>) -> (body: Vec<u8>)
    ensures
        body@ == match content {
            Some(bytes) => bytes@,
            None => not_found(),
        },
{
    match content {
        Some(bytes) => bytes,
        None => {
            let text: [u8; 12] = [
                0x4e,
                0x6f,
                0x74,
                0x20,
                0x46,
                0x6f,
                0x75,
                0x6e,
                0x64,
                0x21,
                0x0d,
                0x0a,
            ];
            assert(text@ =~= not_found());
            let mut body: Vec<u8> = Vec::new();
            append(&mut body, text.as_slice());
            body
        },
    }
}

} // verus!
