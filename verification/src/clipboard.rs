//! Clipboard entries: the captured bytes with their MIME type and content
//! hash, the choice among advertised MIME types, and the title of a text
//! entry.

use crate::hashing::{compute_hash, content_hash};
use crate::text::{
    chars_of, copy_range, first_index, has_prefix, index_of, lemma_first_index_is, same_chars,
    string_of,
};
use vstd::prelude::*;
use vstd::utf8::{decode_utf8, valid_utf8};

verus! {

/// The longest title, in characters.
pub const TITLE_MAX_CHARS: usize = 100;

/// One captured clipboard content.
#[derive(Debug, Clone)]
pub struct ClipboardEntry {
    /// MIME type, such as `text/plain` or `image/png`.
    pub mime: String,
    /// The raw bytes.
    pub data: Vec<u8>,
    /// The content hash of `data`.
    pub hash: String,
}

/// Whether a MIME type names an image: it starts with `image/`.
pub open spec fn is_image_mime(mime: Seq<char>) -> bool {
    "image/"@.is_prefix_of(mime)
}

/// The file extension that a MIME type gives: what stands between the first
/// `/` and the next `/` or `;`, or `bin` where the type holds no `/`.
pub open spec fn mime_ext(mime: Seq<char>) -> Seq<char> {
    let slash = first_index(mime, '/');
    if slash >= mime.len() {
        "bin"@
    } else {
        let rest = mime.skip(slash + 1);
        let segment = rest.take(first_index(rest, '/'));
        segment.take(first_index(segment, ';'))
    }
}

/// For each advertised MIME type, whether it names an image.
pub open spec fn image_flags(mimes: Seq<String>) -> Seq<bool> {
    Seq::new(mimes.len(), |i: int| is_image_mime(mimes[i]@))
}

/// For each advertised MIME type, whether it is `text/plain`.
pub open spec fn plain_flags(mimes: Seq<String>) -> Seq<bool> {
    Seq::new(mimes.len(), |i: int| mimes[i]@ == "text/plain"@)
}

/// The MIME type to sample: the first image type, else `text/plain` where it
/// is advertised, else the first advertised type, else `text/plain`.
pub open spec fn best_mime(mimes: Seq<String>) -> Seq<char> {
    let image = first_index(image_flags(mimes), true);
    let plain = first_index(plain_flags(mimes), true);
    if image < mimes.len() {
        mimes[image]@
    } else if plain < mimes.len() {
        mimes[plain]@
    } else if mimes.len() > 0 {
        mimes[0]@
    } else {
        "text/plain"@
    }
}

/// The text that `String::from_utf8_lossy` gives for `bytes`.
pub uninterp spec fn utf8_lossy(bytes: Seq<u8>) -> Seq<char>;

/// The first line of a text: what stands before the first line feed, without
/// the carriage return that may precede it.
pub open spec fn first_line(text: Seq<char>) -> Seq<char> {
    let feed = first_index(text, '\n');
    if 0 < feed < text.len() && text[feed - 1] == '\r' {
        text.take(feed - 1)
    } else {
        text.take(feed)
    }
}

/// The title of a text: its first line, cut to `TITLE_MAX_CHARS` characters.
pub open spec fn title_of(text: Seq<char>) -> Seq<char> {
    let line = first_line(text);
    if line.len() <= TITLE_MAX_CHARS {
        line
    } else {
        line.take(TITLE_MAX_CHARS as int)
    }
}

/// Calls `String::from_utf8_lossy` and takes ownership of the result.
/// Trusted: the result depends on the bytes alone, and for valid UTF-8 it is
/// the decoded text.
#[verifier::external_body]
pub(crate) fn decode_lossy(data: &[u8]) -> (text: String)
    ensures
        text@ == utf8_lossy(data@),
        valid_utf8(data@) ==> text@ == decode_utf8(data@),
{
    String::from_utf8_lossy(data).into_owned()
}

/// The title of a text.
pub fn title_from_text(text: &str) -> (title: String)
    ensures
        title@ == title_of(text@),
        title@.len() <= TITLE_MAX_CHARS,
{
    let chars = chars_of(text);
    assert(chars@.skip(0) == chars@);
    let feed = index_of(&chars, 0, '\n');
    let mut end = feed;
    if 0 < feed && feed < chars.len() && chars[feed - 1] == '\r' {
        end = feed - 1;
    }
    if end > TITLE_MAX_CHARS {
        end = TITLE_MAX_CHARS;
    }
    let title = copy_range(&chars, 0, end);
    string_of(&title)
}

/// The title of a text entry, from its raw bytes.
pub fn extract_text_title(data: &[u8]) -> (title: String)
    ensures
        title@ == title_of(utf8_lossy(data@)),
        title@.len() <= TITLE_MAX_CHARS,
{
    let text = decode_lossy(data);
    title_from_text(text.as_str())
}

/// Chooses the MIME type to sample among those advertised.
pub fn choose_best_mime(mimes: &[String]) -> (chosen: String)
    ensures
        chosen@ == best_mime(mimes@),
{
    let image_prefix = chars_of("image/");
    let mut i: usize = 0;
    while i < mimes.len()
        invariant
            i <= mimes.len(),
            image_prefix@ == "image/"@,
            forall|j: int| 0 <= j < i ==> !image_flags(mimes@)[j],
        decreases mimes.len() - i,
    {
        let mime = chars_of(mimes[i].as_str());
        if has_prefix(&mime, &image_prefix) {
            proof {
                lemma_first_index_is(image_flags(mimes@), true, i as int);
            }
            return mimes[i].clone();
        }
        i += 1;
    }
    proof {
        lemma_first_index_is(image_flags(mimes@), true, mimes@.len() as int);
    }
    let plain = chars_of("text/plain");
    let mut k: usize = 0;
    while k < mimes.len()
        invariant
            k <= mimes.len(),
            plain@ == "text/plain"@,
            first_index(image_flags(mimes@), true) == mimes@.len(),
            forall|j: int| 0 <= j < k ==> !plain_flags(mimes@)[j],
        decreases mimes.len() - k,
    {
        let mime = chars_of(mimes[k].as_str());
        if same_chars(&mime, &plain) {
            proof {
                lemma_first_index_is(plain_flags(mimes@), true, k as int);
            }
            return mimes[k].clone();
        }
        k += 1;
    }
    proof {
        lemma_first_index_is(plain_flags(mimes@), true, mimes@.len() as int);
    }
    if mimes.len() > 0 {
        mimes[0].clone()
    } else {
        "text/plain".to_owned()
    }
}

impl ClipboardEntry {
    /// The hash is the content hash of the data.
    pub open spec fn well_formed(&self) -> bool {
        self.hash@ == content_hash(self.data@)
    }

    /// Builds an entry from a MIME type and raw bytes, computing the hash.
    pub fn new(mime: String, data: Vec<u8>) -> (entry: Self)
        ensures
            entry.mime == mime,
            entry.data == data,
            entry.hash@ == content_hash(data@),
            entry.hash@.len() == 64,
            entry.well_formed(),
    {
        let hash = compute_hash(data.as_slice());
        Self { mime, data, hash }
    }

    /// Whether this entry is an image.
    pub fn is_image(&self) -> (yes: bool)
        ensures
            yes == is_image_mime(self.mime@),
    {
        let mime = chars_of(self.mime.as_str());
        let prefix = chars_of("image/");
        has_prefix(&mime, &prefix)
    }

    /// The file extension for this entry's MIME type.
    pub fn mime_to_ext(&self) -> (ext: &str)
        ensures
            ext@ == mime_ext(self.mime@),
    {
        let mime = chars_of(self.mime.as_str());
        assert(mime@.skip(0) == mime@);
        let slash = index_of(&mime, 0, '/');
        if slash >= mime.len() {
            return "bin";
        }
        let start = slash + 1;
        let end = index_of(&mime, start, '/');
        let segment = copy_range(&mime, start, end);
        assert(segment@ == mime@.skip(start as int).take(end - start));
        assert(segment@.skip(0) == segment@);
        let stop = index_of(&segment, 0, ';');
        assert(segment@.take(stop as int) == mime@.subrange(start as int, start + stop));
        self.mime.as_str().substring_char(start, start + stop)
    }
}

/// What one clipboard channel last held.
#[derive(Debug)]
pub struct ChannelState {
    /// The content hash seen at the previous sample, if the channel held
    /// anything then.
    pub last_seen_hash: Option<String>,
}

/// What one sample of a channel amounts to.
#[derive(Debug)]
pub enum PollOutcome {
    /// The channel was empty.
    Empty,
    /// The channel still holds what it held at the previous sample.
    Unchanged,
    /// The channel holds new content, to be handed to the store.
    Changed(ClipboardEntry),
    /// The sample failed; the next one is taken as if nothing had happened.
    Skipped,
    /// The watcher is off for the rest of this run.
    Disabled,
}

/// What one attempt to sample the clipboard gave.
#[derive(Debug)]
pub enum Sample {
    /// The clipboard tool could not be run at all.
    Unavailable,
    /// The tool ran and failed, or its answer could not be used.
    Failed,
    /// The tool answered: the content of the chosen MIME type, which is
    /// empty where the clipboard is.
    Content { mime: String, data: Vec<u8> },
}

/// The hash that a channel remembers after sampling `data`.
pub open spec fn seen_after(data: Seq<u8>) -> Option<Seq<char>> {
    if data.len() == 0 {
        None
    } else {
        Some(content_hash(data))
    }
}

/// Whether a sample is new content for a channel that last saw `prev`.
pub open spec fn is_new_content(prev: Option<Seq<char>>, data: Seq<u8>) -> bool {
    data.len() > 0 && prev != Some(content_hash(data))
}

impl ChannelState {
    /// The remembered hash, as text.
    pub open spec fn seen(&self) -> Option<Seq<char>> {
        match self.last_seen_hash {
            Some(hash) => Some(hash@),
            None => None,
        }
    }

    /// A channel that has seen nothing yet.
    pub fn new() -> (state: Self)
        ensures
            state.seen() is None,
    {
        Self { last_seen_hash: None }
    }

    /// Takes one sample of the channel. An empty sample clears the
    /// remembered hash; the same content as before is skipped; anything else
    /// is remembered and handed out as a new entry.
    pub fn observe(&mut self, mime: String, data: Vec<u8>) -> (outcome: PollOutcome)
        ensures
            final(self).seen() == seen_after(data@),
            data@.len() == 0 ==> outcome is Empty,
            data@.len() > 0 && !is_new_content(old(self).seen(), data@) ==> outcome is Unchanged,
            is_new_content(old(self).seen(), data@) ==> (outcome matches PollOutcome::Changed(entry)
                && entry.mime == mime && entry.data == data && entry.well_formed()),
    {
        if data.len() == 0 {
            self.last_seen_hash = None;
            return PollOutcome::Empty;
        }
        let entry = ClipboardEntry::new(mime, data);
        let same = match &self.last_seen_hash {
            Some(previous) => *previous == entry.hash,
            None => false,
        };
        if same {
            return PollOutcome::Unchanged;
        }
        self.last_seen_hash = Some(entry.hash.clone());
        PollOutcome::Changed(entry)
    }
}

/// The capture watcher's memory: one channel for text, one for images, and
/// whether the watcher runs.
#[derive(Debug)]
pub struct Watcher {
    /// The channel of everything that is no image.
    pub text: ChannelState,
    /// The channel of image content.
    pub image: ChannelState,
    /// Whether the clipboard tool has been seen to run.
    pub started: bool,
    /// Whether the watcher has switched itself off: the tool could not be
    /// run when the watcher took its first sample.
    pub disabled: bool,
}

/// Whether a sample of content took the channels of a watcher from `before`
/// to `after` with this outcome: the channel of the MIME type remembers the
/// content, the other channel is as it was, and the outcome tells an empty
/// sample, the same content as before, and new content apart.
pub open spec fn after_content(
    before: Watcher,
    after: Watcher,
    mime: String,
    data: Vec<u8>,
    outcome: PollOutcome,
) -> bool {
    &&& after.channel(mime@).seen() == seen_after(data@)
    &&& (is_image_mime(mime@) ==> after.text == before.text)
    &&& (!is_image_mime(mime@) ==> after.image == before.image)
    &&& (data@.len() == 0 ==> outcome is Empty)
    &&& (data@.len() > 0 && !is_new_content(before.channel(mime@).seen(), data@)
        ==> outcome is Unchanged)
    &&& (is_new_content(before.channel(mime@).seen(), data@) ==> outcome is Changed
        && outcome->Changed_0.mime == mime && outcome->Changed_0.data == data
        && outcome->Changed_0.well_formed())
}

/// Whether a watcher that was `before` is `after` once it has taken
/// `sample`, with this outcome.
pub open spec fn is_step(
    before: Watcher,
    sample: Sample,
    after: Watcher,
    outcome: PollOutcome,
) -> bool {
    if before.disabled {
        outcome is Disabled && after == before
    } else {
        match sample {
            Sample::Unavailable => if before.started {
                outcome is Skipped && after == before
            } else {
                outcome is Disabled && after == (Watcher { disabled: true, ..before })
            },
            Sample::Failed => outcome is Skipped && after == (Watcher { started: true, ..before }),
            Sample::Content { mime, data } => after.started && !after.disabled && after_content(
                before,
                after,
                mime,
                data,
                outcome,
            ),
        }
    }
}

impl Watcher {
    /// A watcher that has seen nothing yet.
    pub fn new() -> (watcher: Self)
        ensures
            watcher.text.seen() is None,
            watcher.image.seen() is None,
            !watcher.started,
            !watcher.disabled,
    {
        Self {
            text: ChannelState::new(),
            image: ChannelState::new(),
            started: false,
            disabled: false,
        }
    }

    /// Takes one sample for the channel that `mime` belongs to, and leaves
    /// the other channel as it was.
    pub fn observe(&mut self, mime: String, data: Vec<u8>) -> (outcome: PollOutcome)
        ensures
            final(self).started == old(self).started,
            final(self).disabled == old(self).disabled,
            is_image_mime(mime@) ==> final(self).image.seen() == seen_after(data@),
            is_image_mime(mime@) ==> final(self).text == old(self).text,
            !is_image_mime(mime@) ==> final(self).text.seen() == seen_after(data@),
            !is_image_mime(mime@) ==> final(self).image == old(self).image,
            data@.len() == 0 ==> outcome is Empty,
            data@.len() > 0 && !is_new_content(old(self).channel(mime@).seen(), data@)
                ==> outcome is Unchanged,
            is_new_content(old(self).channel(mime@).seen(), data@) ==> (
            outcome matches PollOutcome::Changed(entry) && entry.mime == mime && entry.data == data
                && entry.well_formed()),
    {
        let chars = chars_of(mime.as_str());
        let prefix = chars_of("image/");
        if has_prefix(&chars, &prefix) {
            self.image.observe(mime, data)
        } else {
            self.text.observe(mime, data)
        }
    }

    /// Takes what one attempt to sample the clipboard gave. A watcher that
    /// is off stays off. A tool that cannot be run at the first attempt
    /// switches the watcher off for good; later, and for any other failure,
    /// the sample is skipped and nothing changes. Content goes to its
    /// channel as in `observe`.
    pub fn poll(&mut self, sample: Sample) -> (outcome: PollOutcome)
        ensures
            is_step(*old(self), sample, *final(self), outcome),
    {
        if self.disabled {
            return PollOutcome::Disabled;
        }
        match sample {
            Sample::Unavailable => {
                if self.started {
                    PollOutcome::Skipped
                } else {
                    self.disabled = true;
                    PollOutcome::Disabled
                }
            },
            Sample::Failed => {
                self.started = true;
                PollOutcome::Skipped
            },
            Sample::Content { mime, data } => {
                self.started = true;
                self.observe(mime, data)
            },
        }
    }

    /// The channel that a MIME type belongs to.
    pub open spec fn channel(&self, mime: Seq<char>) -> ChannelState {
        if is_image_mime(mime) {
            self.image
        } else {
            self.text
        }
    }
}

} // verus!
