//! Stack capture and the cleaning of a captured stack: frames of the library's
//! own internals and of the capture mechanism are trimmed from the innermost
//! end, and everything from the first foreign frame outward is kept.

use vstd::prelude::*;
use vstd::string::*;
use crate::text::{contains, decimal_text, has_prefix, has_substring, push_decimal, starts_with, to_chars};

verus! {

/// One resolved symbol of a captured call stack, innermost first. A part that
/// could not be resolved is `None`.
#[derive(Debug)]
pub struct StackFrame {
    pub name: Option<String>,
    pub file: Option<String>,
    pub line: Option<u32>,
}

/// A symbol name that belongs to the library or to the capture mechanism.
pub open spec fn is_internal_name(name: Seq<char>) -> bool {
    ||| has_prefix(name, "slogx::"@)
    ||| has_prefix(name, "backtrace::"@)
    ||| has_substring(name, "__rust_begin_short_backtrace"@)
}

impl StackFrame {
    /// The symbol name, or the placeholder where it is unresolved.
    pub open spec fn symbol(self) -> Seq<char> {
        match self.name {
            Some(n) => n@,
            None => "<unknown>"@,
        }
    }

    /// The source file, or the placeholder where it is unresolved.
    pub open spec fn location(self) -> Seq<char> {
        match self.file {
            Some(f) => f@,
            None => "<unknown>"@,
        }
    }

    /// The line number, or 0 where it is unresolved.
    pub open spec fn line_number(self) -> nat {
        match self.line {
            Some(l) => l as nat,
            None => 0,
        }
    }

    /// The frame belongs to the library's internals or to the capture mechanism.
    pub open spec fn is_internal(self) -> bool {
        is_internal_name(self.symbol())
    }

    /// The line of the trace that shows this frame.
    pub open spec fn text(self) -> Seq<char> {
        "  at "@ + self.symbol() + " ("@ + self.location() + ":"@ + decimal_text(
            self.line_number(),
        ) + ")"@
    }

    /// Tests whether the frame is internal.
    pub fn internal(&self) -> (r: bool)
        ensures
            r == self.is_internal(),
    {
        match &self.name {
            Some(n) => internal_name(n.as_str()),
            None => internal_name("<unknown>"),
        }
    }

    /// Renders the frame as one line of a trace.
    pub fn render(&self) -> (r: String)
        ensures
            r@ == self.text(),
    {
        let mut out = String::from_str("  at ");
        match &self.name {
            Some(n) => out.append(n.as_str()),
            None => out.append("<unknown>"),
        }
        out.append(" (");
        match &self.file {
            Some(f) => out.append(f.as_str()),
            None => out.append("<unknown>"),
        }
        out.append(":");
        let line: u32 = match self.line {
            Some(l) => l,
            None => 0,
        };
        push_decimal(&mut out, line as u64);
        out.append(")");
        assert(out@ =~= self.text());
        out
    }
}

/// Tests whether a symbol name is internal.
pub fn internal_name(name: &str) -> (r: bool)
    ensures
        r == is_internal_name(name@),
{
    let chars = to_chars(name);
    let own = to_chars("slogx::");
    let capture = to_chars("backtrace::");
    let entry = to_chars("__rust_begin_short_backtrace");
    starts_with(&chars, &own) || starts_with(&chars, &capture) || contains(&chars, &entry)
}

/// The number of leading internal frames: the index of the first frame that is
/// not internal, or the length where every frame is internal.
pub open spec fn first_external(frames: Seq<StackFrame>) -> nat
    decreases frames.len(),
{
    if frames.len() == 0 || !frames[0].is_internal() {
        0
    } else {
        1 + first_external(frames.drop_first())
    }
}

/// Some frame is not internal.
pub open spec fn has_external(frames: Seq<StackFrame>) -> bool {
    first_external(frames) < frames.len()
}

/// The frames that a clean trace shows: the first external frame and all
/// that follow it.
pub open spec fn kept_frames(frames: Seq<StackFrame>) -> Seq<StackFrame> {
    frames.skip(first_external(frames) as int)
}

/// The lines of a trace, one per frame.
pub open spec fn frame_lines(frames: Seq<StackFrame>) -> Seq<Seq<char>> {
    Seq::new(frames.len(), |i: int| frames[i].text())
}

/// Lines joined by single line feeds.
pub open spec fn join_lines(lines: Seq<Seq<char>>) -> Seq<char>
    decreases lines.len(),
{
    if lines.len() == 0 {
        Seq::empty()
    } else if lines.len() == 1 {
        lines[0]
    } else {
        join_lines(lines.drop_last()) + "\n"@ + lines.last()
    }
}

/// The text of the clean trace of a captured stack.
pub open spec fn clean_trace_text(frames: Seq<StackFrame>) -> Seq<char> {
    join_lines(frame_lines(kept_frames(frames)))
}

/// `first_external` is the least index of a frame that is not internal.
pub proof fn lemma_first_external(frames: Seq<StackFrame>)
    ensures
        first_external(frames) <= frames.len(),
        forall|j: int| 0 <= j < first_external(frames) ==> (#[trigger] frames[j]).is_internal(),
        first_external(frames) < frames.len() ==> !frames[first_external(frames) as int].is_internal(),
    decreases frames.len(),
{
    if frames.len() == 0 || !frames[0].is_internal() {
    } else {
        let rest = frames.drop_first();
        lemma_first_external(rest);
        assert forall|j: int| 0 <= j < first_external(frames) implies (
        #[trigger] frames[j]).is_internal() by {
            if j > 0 {
                assert(frames[j] == rest[j - 1]);
            }
        }
        if first_external(frames) < frames.len() {
            assert(frames[first_external(frames) as int] == rest[first_external(rest) as int]);
        }
    }
}

/// An index whose frame is external, with only internal frames before it, is
/// `first_external`; so is the length where every frame is internal.
pub proof fn lemma_first_external_unique(frames: Seq<StackFrame>, k: int)
    requires
        0 <= k <= frames.len(),
        forall|j: int| 0 <= j < k ==> (#[trigger] frames[j]).is_internal(),
        k < frames.len() ==> !frames[k].is_internal(),
    ensures
        first_external(frames) == k,
{
    lemma_first_external(frames);
    let f = first_external(frames) as int;
    if f < k {
        assert(frames[f].is_internal());
    } else if k < f {
        assert(frames[k].is_internal());
    }
}

/// The clean trace shows the first external frame and every frame after
/// it, unchanged and in order; the frames before it are internal, and they
/// alone are left out. No frame is shown just where every frame is internal.
pub proof fn lemma_kept_frames(frames: Seq<StackFrame>)
    ensures
        kept_frames(frames).len() == frames.len() - first_external(frames),
        forall|i: int|
            0 <= i < kept_frames(frames).len() ==> (#[trigger] kept_frames(frames)[i]) == frames[
                first_external(frames) + i],
        has_external(frames) ==> !kept_frames(frames)[0].is_internal(),
        forall|j: int| 0 <= j < first_external(frames) ==> (#[trigger] frames[j]).is_internal(),
        !has_external(frames) <==> forall|j: int|
            0 <= j < frames.len() ==> (#[trigger] frames[j]).is_internal(),
{
    lemma_first_external(frames);
    if has_external(frames) {
        assert(!frames[first_external(frames) as int].is_internal());
    }
}

/// Finds the first frame that is not internal.
pub fn find_first_external(frames: &Vec<StackFrame>) -> (k: usize)
    ensures
        k == first_external(frames@),
        k <= frames.len(),
{
    let mut k: usize = 0;
    while k < frames.len()
        invariant
            k <= frames.len(),
            forall|j: int| 0 <= j < k ==> (#[trigger] frames@[j]).is_internal(),
        decreases frames.len() - k,
    {
        if !frames[k].internal() {
            proof {
                lemma_first_external_unique(frames@, k as int);
            }
            return k;
        }
        k = k + 1;
    }
    proof {
        lemma_first_external_unique(frames@, k as int);
    }
    k
}

/// Joining one more line appends a line feed and the line, unless it is the first.
pub proof fn lemma_join_push(lines: Seq<Seq<char>>, line: Seq<char>)
    ensures
        join_lines(lines.push(line)) == if lines.len() == 0 {
            line
        } else {
            join_lines(lines) + "\n"@ + line
        },
{
    let all = lines.push(line);
    assert(all.drop_last() =~= lines);
    assert(all.last() == line);
}

/// Renders the clean trace of a captured stack, or `None` where every frame
/// is internal, so that no line would be left.
pub fn clean_trace(frames: &Vec<StackFrame>) -> (r: Option<String>)
    ensures
        r is Some <==> has_external(frames@),
        r is Some ==> r->0@ == clean_trace_text(frames@),
{
    let start: usize = find_first_external(frames);
    if start == frames.len() {
        return None;
    }
    let ghost kept = kept_frames(frames@);
    let ghost lines = frame_lines(kept);
    let mut out = String::new();
    let mut i: usize = start;
    while i < frames.len()
        invariant
            start <= i <= frames.len(),
            start == first_external(frames@),
            kept == kept_frames(frames@),
            lines == frame_lines(kept),
            out@ == join_lines(lines.take(i - start)),
        decreases frames.len() - i,
    {
        let line = frames[i].render();
        if i > start {
            out.append("\n");
        }
        out.append(line.as_str());
        proof {
            let done = lines.take(i - start);
            assert(kept[i - start] == frames@[i as int]);
            assert(lines[i - start] == line@);
            assert(lines.take(i - start + 1) =~= done.push(line@));
            lemma_join_push(done, line@);
            assert(out@ =~= join_lines(lines.take(i - start + 1)));
        }
        i = i + 1;
    }
    assert(lines.take(i - start) =~= lines);
    Some(out)
}

/// A symbol name that is internal, or that belongs to `namespace`: the
/// namespace of wrappers through which a log call reaches the library.
pub open spec fn is_wrapper_name(name: Seq<char>, namespace: Seq<char>) -> bool {
    is_internal_name(name) || has_prefix(name, namespace + "::"@)
}

/// The number of leading frames that are internal or belong to `namespace`.
pub open spec fn leading_wrappers(frames: Seq<StackFrame>, namespace: Seq<char>) -> nat
    decreases frames.len(),
{
    if frames.len() == 0 || !is_wrapper_name(frames[0].symbol(), namespace) {
        0
    } else {
        1 + leading_wrappers(frames.drop_first(), namespace)
    }
}

/// The frames from the first one on that is neither internal nor of `namespace`.
pub open spec fn outside_frames(frames: Seq<StackFrame>, namespace: Seq<char>) -> Seq<StackFrame> {
    frames.skip(leading_wrappers(frames, namespace) as int)
}

/// The leading wrappers are within the frames; the frame after them, if
/// there is one, is neither internal nor of `namespace`, so that the clean
/// trace of what is left shows all of it.
pub proof fn lemma_outside_frames(frames: Seq<StackFrame>, namespace: Seq<char>)
    ensures
        leading_wrappers(frames, namespace) <= frames.len(),
        outside_frames(frames, namespace).len() > 0 ==> !is_wrapper_name(
            outside_frames(frames, namespace)[0].symbol(),
            namespace,
        ),
        first_external(outside_frames(frames, namespace)) == 0,
        kept_frames(outside_frames(frames, namespace)) == outside_frames(frames, namespace),
    decreases frames.len(),
{
    if frames.len() == 0 || !is_wrapper_name(frames[0].symbol(), namespace) {
        assert(frames.skip(0) =~= frames);
    } else {
        let rest = frames.drop_first();
        lemma_outside_frames(rest, namespace);
        assert(frames.skip((1 + leading_wrappers(rest, namespace)) as int) =~= rest.skip(
            leading_wrappers(rest, namespace) as int,
        ));
    }
    let left = outside_frames(frames, namespace);
    assert(left.skip(0) =~= left);
}

/// Tests whether a symbol name is internal or belongs to `namespace`.
pub fn wrapper_name(name: &str, namespace: &str) -> (r: bool)
    ensures
        r == is_wrapper_name(name@, namespace@),
{
    if internal_name(name) {
        return true;
    }
    let mut prefix = String::from_str(namespace);
    prefix.append("::");
    let chars = to_chars(name);
    let pattern = to_chars(prefix.as_str());
    starts_with(&chars, &pattern)
}

/// Drops the leading frames that are internal or belong to `namespace`.
pub fn trim_wrappers(frames: Vec<StackFrame>, namespace: &str) -> (r: Vec<StackFrame>)
    ensures
        r@ == outside_frames(frames@, namespace@),
{
    let mut left = frames;
    loop
        invariant
            outside_frames(left@, namespace@) == outside_frames(frames@, namespace@),
        ensures
            left@ == outside_frames(frames@, namespace@),
        decreases left@.len(),
    {
        if left.len() == 0 {
            assert(left@.skip(0) =~= left@);
            break;
        }
        let wrapped = match &left[0].name {
            Some(n) => wrapper_name(n.as_str(), namespace),
            None => wrapper_name("<unknown>", namespace),
        };
        if !wrapped {
            assert(left@.skip(0) =~= left@);
            break;
        }
        proof {
            let rest = left@.drop_first();
            lemma_outside_frames(rest, namespace@);
            assert(left@.remove(0) =~= rest);
            assert(left@.skip((1 + leading_wrappers(rest, namespace@)) as int) =~= rest.skip(
                leading_wrappers(rest, namespace@) as int,
            ));
        }
        left.remove(0);
    }
    left
}

/// Captures the call stack of the calling thread and drops its leading
/// frames that are internal or belong to `namespace`. What a capture holds
/// depends on the thread, the build and the platform; what is left begins
/// with a frame that is neither internal nor of `namespace`.
pub fn capture_outside(namespace: &str) -> (r: Vec<StackFrame>)
    ensures
        r@.len() > 0 ==> !is_wrapper_name(r@[0].symbol(), namespace@),
        kept_frames(r@) == r@,
{
    let frames = capture_frames();
    proof {
        lemma_outside_frames(frames@, namespace@);
    }
    trim_wrappers(frames, namespace)
}

/// Captures the call stack of the calling thread with `backtrace::Backtrace::new`
/// and hands out its resolved symbols, innermost first, each with the name,
/// file and line that the capture resolved. Nothing is claimed of what a
/// capture holds: it depends on the thread, the build and the platform.
#[verifier::external_body]
pub(crate) fn capture_frames() -> (frames: Vec<StackFrame>) {
    let bt = backtrace::Backtrace::new();
    let frames = bt.frames().iter().flat_map(|f| f.symbols().iter()).map(
        |s| StackFrame {
            name: s.name().map(|n| n.to_string()),
            file: s.filename().and_then(|p| p.to_str()).map(|p| p.to_string()),
            line: s.lineno(),
        },
    ).collect();
    frames
}

/// Captures the call stack with `backtrace::Backtrace::new` and renders it
/// whole, in the capture's own debug form. Nothing is claimed of the text.
#[verifier::external_body]
fn capture_raw_trace() -> (text: String) {
    format!("{:?}", backtrace::Backtrace::new())
}

/// The trace that a record carries for the captured stack `frames`: its
/// clean trace; where the cleaning leaves no line, the stack is captured
/// again and returned unfiltered.
pub(crate) fn build_clean_stacktrace(frames: &Vec<StackFrame>) -> (r: String)
    ensures
        has_external(frames@) ==> r@ == clean_trace_text(frames@),
{
    match clean_trace(frames) {
        Some(t) => t,
        None => capture_raw_trace(),
    }
}

} // verus!
