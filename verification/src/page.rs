//! Response page composer: a finite, single-pass byte stream chaining the
//! three fixed page fragments around the two stored field values. The field
//! values are borrowed for the duration of the write, never copied into an
//! intermediate owned buffer.

use vstd::prelude::*;

verus! {

use vstd::string::StringSliceAdditionalSpecFns;

/// Leading page fragment, up to the preview location.
pub const PAGE_HEAD: &'static str =
    r#"<!DOCTYPE html><html><head><meta property="og:image" content="https://cdn.discordapp.com/attachments/"#;

/// Middle page fragment, between the preview and the video locations.
pub const PAGE_MID: &'static str =
    r#""><meta property="og:image:type" content="image/gif"><meta property="og:image:height" content="202"><meta property="og:image:width" content="250"><meta property="og:type" content="video.other"><meta property="og:video:url" content="https://cdn.discordapp.com/attachments/"#;

/// Trailing page fragment, after the video location.
pub const PAGE_TAIL: &'static str =
    r#""><meta property="og:video:height" content="202"><meta property="og:video:width" content="250"></head><body><h1><a href="submit">Submit a link</a></h1></body></html>"#;

/// Concatenation of the first `n` byte sources.
pub open spec fn concat_prefix(parts: Seq<Seq<u8>>, n: int) -> Seq<u8>
    decreases n,
{
    if n <= 0 {
        Seq::empty()
    } else {
        concat_prefix(parts, n - 1) + parts[n - 1]
    }
}

/// Concatenating all of five sources yields their chained bytes.
proof fn lemma_concat_five(parts: Seq<Seq<u8>>)
    requires
        parts.len() == 5,
    ensures
        concat_prefix(parts, 5) =~= parts[0] + parts[1] + parts[2] + parts[3] + parts[4],
{
    assert(concat_prefix(parts, 0) =~= Seq::<u8>::empty());
    assert(concat_prefix(parts, 1) =~= parts[0]);
    assert(concat_prefix(parts, 2) =~= parts[0] + parts[1]);
    assert(concat_prefix(parts, 3) =~= parts[0] + parts[1] + parts[2]);
    assert(concat_prefix(parts, 4) =~= parts[0] + parts[1] + parts[2] + parts[3]);
}

/// A single-pass, zero-copy chain of the five byte sources of one page.
pub struct PageStream<'a> {
    head: &'a [u8],
    preview: &'a [u8],
    mid: &'a [u8],
    video: &'a [u8],
    tail: &'a [u8],
    idx: usize,
}

impl<'a> PageStream<'a> {
    /// The five byte sources in emission order.
    pub closed spec fn parts(self) -> Seq<Seq<u8>> {
        seq![self.head@, self.preview@, self.mid@, self.video@, self.tail@]
    }

    /// The whole page: all five sources chained.
    pub closed spec fn full(self) -> Seq<u8> {
        concat_prefix(self.parts(), 5)
    }

    /// The bytes the stream has handed out so far.
    pub closed spec fn emitted(self) -> Seq<u8> {
        concat_prefix(self.parts(), self.idx as int)
    }

    /// A stream hands out at most its five sources.
    pub closed spec fn wf(self) -> bool {
        self.idx <= 5
    }

    /// Whether the stream is drained.
    pub closed spec fn done(self) -> bool {
        self.idx == 5
    }

    /// How many sources have been handed out.
    pub closed spec fn position(self) -> int {
        self.idx as int
    }

    /// Chain five borrowed byte sources; nothing is copied.
    pub fn new(
        head: &'a [u8],
        preview: &'a [u8],
        mid: &'a [u8],
        video: &'a [u8],
        tail: &'a [u8],
    ) -> (r: PageStream<'a>)
        ensures
            r.wf(),
            !r.done(),
            r.emitted() == Seq::<u8>::empty(),
            r.full() == head@ + preview@ + mid@ + video@ + tail@,
    {
        let r = PageStream { head, preview, mid, video, tail, idx: 0 };
        proof {
            lemma_concat_five(r.parts());
            assert(r.full() == head@ + preview@ + mid@ + video@ + tail@);
        }
        r
    }

    /// Hand out the next chunk, or `None` once drained. Every source is
    /// yielded exactly once, in order; the yielded bytes always form a
    /// prefix of the whole page.
    pub fn next_chunk(&mut self) -> (r: Option<&'a [u8]>)
        requires
            old(self).wf(),
        ensures
            final(self).wf(),
            final(self).full() == old(self).full(),
            match r {
                Some(c) => !old(self).done() && final(self).position() == old(self).position()
                    + 1 && c@ == old(self).parts()[old(self).position()] && final(self).emitted()
                    == old(self).emitted() + c@,
                None => old(self).done() && *final(self) == *old(self),
            },
    {
        if self.idx >= 5 {
            return None;
        }
        let r = if self.idx == 0 {
            self.head
        } else if self.idx == 1 {
            self.preview
        } else if self.idx == 2 {
            self.mid
        } else if self.idx == 3 {
            self.video
        } else {
            self.tail
        };
        self.idx = self.idx + 1;
        Some(r)
    }
}

/// Drained exactly once: when a well-formed stream is done, what it has
/// handed out is precisely the whole page, no byte more or less.
pub proof fn lemma_drained_is_full<'a>(s: PageStream<'a>)
    requires
        s.wf(),
        s.done(),
    ensures
        s.emitted() == s.full(),
{
}

/// Compose the page for one resolved link: the fixed fragments around the
/// two borrowed field values.
pub fn page_response<'a>(preview: &'a str, video: &'a str) -> (r: PageStream<'a>)
    ensures
        r.wf(),
        !r.done(),
        r.emitted() == Seq::<u8>::empty(),
        r.full() == PAGE_HEAD.spec_bytes() + preview.spec_bytes() + PAGE_MID.spec_bytes()
            + video.spec_bytes() + PAGE_TAIL.spec_bytes(),
{
    PageStream::new(
        PAGE_HEAD.as_bytes(),
        preview.as_bytes(),
        PAGE_MID.as_bytes(),
        video.as_bytes(),
        PAGE_TAIL.as_bytes(),
    )
}

} // verus!
