use vstd::prelude::*;
use crate::error::Error;
use crate::text::chars_of;

verus! {

/// The deepest path that storage resolves, in components.
pub const MAX_DEPTH: usize = 256;

/// A time source for the FAT file system that always gives the start of
/// 1970.
#[derive(Default)]
pub struct DummyTimesource();

/// A date and time as the FAT file system records it.
pub struct FatTimestamp {
    /// Years since 1970.
    pub year_since_1970: u8,
    /// Month, 0 for January.
    pub zero_indexed_month: u8,
    /// Day of the month, 0 for the first.
    pub zero_indexed_day: u8,
    /// Hours.
    pub hours: u8,
    /// Minutes.
    pub minutes: u8,
    /// Seconds.
    pub seconds: u8,
}

impl DummyTimesource {
    /// The time this source gives: always the first second of 1970.
    pub fn get_timestamp(&self) -> (t: FatTimestamp)
        ensures
            t.year_since_1970 == 0,
            t.zero_indexed_month == 0,
            t.zero_indexed_day == 0,
            t.hours == 0,
            t.minutes == 0,
            t.seconds == 0,
    {
        FatTimestamp {
            year_since_1970: 0,
            zero_indexed_month: 0,
            zero_indexed_day: 0,
            hours: 0,
            minutes: 0,
            seconds: 0,
        }
    }
}

/// The walk through the directories of a resolved path: each directory is
/// opened inside the one opened before it, the first inside the root. When
/// the walk is done, the last directory opened is kept and the others are
/// closed, the most recently opened first.
pub struct DirWalk<H> {
    root: H,
    opened: Vec<H>,
}

/// The abstract state of a directory walk.
pub struct DirWalkView<H> {
    /// The root directory.
    pub root: H,
    /// The directories opened so far, in order.
    pub opened: Seq<H>,
}

impl<H> View for DirWalk<H> {
    type V = DirWalkView<H>;

    closed spec fn view(&self) -> DirWalkView<H> {
        DirWalkView { root: self.root, opened: self.opened@ }
    }
}

impl<H: Copy> DirWalk<H> {
    /// A walk that starts at `root` and has opened nothing.
    pub fn new(root: H) -> (w: Self)
        ensures
            w@.root == root,
            w@.opened == Seq::<H>::empty(),
    {
        Self { root, opened: Vec::new() }
    }

    /// The directory that the next one is opened in: the last one opened,
    /// or the root when none is.
    pub fn parent(&self) -> (p: H)
        ensures
            p == (if self@.opened.len() == 0 {
                self@.root
            } else {
                self@.opened.last()
            }),
    {
        if self.opened.len() == 0 {
            self.root
        } else {
            self.opened[self.opened.len() - 1]
        }
    }

    /// Records a directory that was just opened.
    pub fn opened(&mut self, dir: H)
        ensures
            final(self)@.root == old(self)@.root,
            final(self)@.opened == old(self)@.opened.push(dir),
    {
        self.opened.push(dir);
    }

    /// The directory that holds the path's last component: the last one
    /// opened, `None` when the path is only a name in the root.
    pub fn innermost(&self) -> (d: Option<H>)
        ensures
            d == (if self@.opened.len() == 0 {
                None
            } else {
                Some(self@.opened.last())
            }),
    {
        if self.opened.len() == 0 {
            None
        } else {
            Some(self.opened[self.opened.len() - 1])
        }
    }

    /// The directories to close once the walk is done, in the order to
    /// close them: all but the last one opened, the most recent first.
    pub fn to_close(&self) -> (dirs: Vec<H>)
        ensures
            self@.opened.len() == 0 ==> dirs@.len() == 0,
            self@.opened.len() > 0 ==> dirs@ == self@.opened.drop_last().reverse(),
    {
        let mut dirs: Vec<H> = Vec::new();
        let n = self.opened.len();
        if n == 0 {
            return dirs;
        }
        let ghost keep = self@.opened.drop_last();
        let mut i: usize = n - 1;
        while i > 0
            invariant
                n == self.opened@.len(),
                n > 0,
                keep == self.opened@.drop_last(),
                i <= n - 1,
                dirs@ == keep.reverse().subrange(0, (n - 1 - i) as int),
            decreases i,
        {
            i = i - 1;
            dirs.push(self.opened[i]);
            proof {
                assert(keep.reverse()[(n - 2 - i) as int] == keep[i as int]);
                assert(dirs@ =~= keep.reverse().subrange(0, (n - 1 - i) as int));
            }
        }
        assert(dirs@ =~= keep.reverse());
        dirs
    }
}

/// What to do after reading a chunk of a file.
#[derive(PartialEq, Eq, Structural, Clone, Copy, Debug)]
pub enum ChunkStep {
    /// Nothing was read: the file is done.
    Finish,
    /// Hand the `len` bytes read to the consumer as the part of the file
    /// that starts at `at`; stop afterwards when `last`.
    Deliver { at: u32, len: usize, last: bool },
}

/// The bookkeeping of reading a file chunk by chunk into a buffer of
/// `chunk` bytes: each chunk read goes to the consumer at the offset where
/// it lies in the file; reading stops at an empty read or after a short one.
pub struct ChunkedRead {
    offset: u32,
    chunk: usize,
}

/// The abstract state of a chunked read.
pub struct ChunkedReadView {
    /// How many bytes have been handed out so far.
    pub offset: u32,
    /// The size of the buffer.
    pub chunk: usize,
}

impl View for ChunkedRead {
    type V = ChunkedReadView;

    closed spec fn view(&self) -> ChunkedReadView {
        ChunkedReadView { offset: self.offset, chunk: self.chunk }
    }
}

impl ChunkedRead {
    /// A read through a buffer of `chunk` bytes that has read nothing.
    pub fn new(chunk: usize) -> (r: Self)
        ensures
            r@ == (ChunkedReadView { offset: 0, chunk }),
    {
        Self { offset: 0, chunk }
    }

    /// The number of bytes handed out so far.
    pub fn total(&self) -> (n: u32)
        ensures
            n == self@.offset,
    {
        self.offset
    }

    /// Takes in how many bytes the last read gave and says what to do: an
    /// empty read finishes; any other is handed out at the current offset,
    /// which then moves past it, and is the last when shorter than the
    /// buffer.
    pub fn after_read(&mut self, read: usize) -> (step: ChunkStep)
        requires
            read <= old(self)@.chunk,
            read > 0 ==> old(self)@.offset + (read as u32) <= u32::MAX,
        ensures
            read == 0 ==> step == ChunkStep::Finish && final(self)@ == old(self)@,
            read > 0 ==> step == (ChunkStep::Deliver {
                at: old(self)@.offset,
                len: read,
                last: read < old(self)@.chunk,
            }) && final(self)@ == (ChunkedReadView {
                offset: (old(self)@.offset + (read as u32)) as u32,
                ..old(self)@
            }),
    {
        if read == 0 {
            return ChunkStep::Finish;
        }
        let at = self.offset;
        self.offset = self.offset + read as u32;
        ChunkStep::Deliver { at, len: read, last: read < self.chunk }
    }
}

/// `c` has the Unicode White_Space property, as `char::is_whitespace`
/// documents.
pub open spec fn is_whitespace(c: char) -> bool {
    ||| '\u{9}' <= c <= '\u{d}'
    ||| c == ' '
    ||| c == '\u{85}'
    ||| c == '\u{a0}'
    ||| c == '\u{1680}'
    ||| '\u{2000}' <= c <= '\u{200a}'
    ||| c == '\u{2028}'
    ||| c == '\u{2029}'
    ||| c == '\u{202f}'
    ||| c == '\u{205f}'
    ||| c == '\u{3000}'
}

fn whitespace(c: char) -> (b: bool)
    ensures
        b == is_whitespace(c),
{
    ('\u{9}' <= c && c <= '\u{d}') || c == ' ' || c == '\u{85}' || c == '\u{a0}' || c == '\u{1680}'
        || ('\u{2000}' <= c && c <= '\u{200a}') || c == '\u{2028}' || c == '\u{2029}' || c
        == '\u{202f}' || c == '\u{205f}' || c == '\u{3000}'
}

/// `s` without its leading whitespace.
pub open spec fn trim_start(s: Seq<char>) -> Seq<char>
    decreases s.len(),
{
    if s.len() > 0 && is_whitespace(s[0]) {
        trim_start(s.drop_first())
    } else {
        s
    }
}

/// `s` without its trailing whitespace.
pub open spec fn trim_end(s: Seq<char>) -> Seq<char>
    decreases s.len(),
{
    if s.len() > 0 && is_whitespace(s.last()) {
        trim_end(s.drop_last())
    } else {
        s
    }
}

/// The path as storage reads it: without surrounding whitespace, then
/// without one leading `/` and one trailing `/` where it has them.
pub open spec fn normalized_path(p: Seq<char>) -> Seq<char> {
    let t = trim_end(trim_start(p));
    let t1 = if t.len() > 0 && t[0] == '/' {
        t.drop_first()
    } else {
        t
    };
    if t1.len() > 0 && t1.last() == '/' {
        t1.drop_last()
    } else {
        t1
    }
}

/// `s` contains `./` (which `../` contains too).
pub open spec fn has_dot_slash(s: Seq<char>) -> bool {
    exists|i: int| 0 <= i < s.len() - 1 && #[trigger] s[i] == '.' && s[i + 1] == '/'
}

/// The number of `/` in `s`.
pub open spec fn slash_count(s: Seq<char>) -> nat
    decreases s.len(),
{
    if s.len() == 0 {
        0
    } else {
        slash_count(s.drop_last()) + if s.last() == '/' {
            1nat
        } else {
            0nat
        }
    }
}

/// The components joined with `/` between them.
pub open spec fn join_components(parts: Seq<Seq<char>>) -> Seq<char>
    decreases parts.len(),
{
    if parts.len() == 0 {
        Seq::empty()
    } else if parts.len() == 1 {
        parts[0]
    } else {
        join_components(parts.drop_last()) + seq!['/'] + parts.last()
    }
}

/// Message of the error for a path with `./` or `../` in it.
pub open spec fn dot_path_error() -> Seq<char> {
    "Path cannot contain \"./\" or \"../\""@
}

/// Message of the error for a path of more than `MAX_DEPTH` components.
pub open spec fn long_path_error() -> Seq<char> {
    "Path too long"@
}

/// Every character of `s` is whitespace.
pub open spec fn all_whitespace(s: Seq<char>) -> bool {
    forall|i: int| 0 <= i < s.len() ==> is_whitespace(#[trigger] s[i])
}

proof fn lemma_trim_start_skips(w: Seq<char>, q: Seq<char>)
    requires
        all_whitespace(w),
    ensures
        trim_start(w + q) == trim_start(q),
    decreases w.len(),
{
    if w.len() > 0 {
        assert((w + q)[0] == w[0]);
        assert((w + q).drop_first() =~= w.drop_first() + q);
        assert(all_whitespace(w.drop_first())) by {
            assert forall|i: int| 0 <= i < w.drop_first().len() implies is_whitespace(
                #[trigger] w.drop_first()[i],
            ) by {
                assert(w.drop_first()[i] == w[i + 1]);
            }
        }
        lemma_trim_start_skips(w.drop_first(), q);
    } else {
        assert(w + q =~= q);
    }
}

proof fn lemma_trim_end_skips(q: Seq<char>, w: Seq<char>)
    requires
        all_whitespace(w),
    ensures
        trim_end(q + w) == trim_end(q),
    decreases w.len(),
{
    if w.len() > 0 {
        assert((q + w).last() == w.last());
        assert((q + w).drop_last() =~= q + w.drop_last());
        assert(all_whitespace(w.drop_last())) by {
            assert forall|i: int| 0 <= i < w.drop_last().len() implies is_whitespace(
                #[trigger] w.drop_last()[i],
            ) by {
                assert(w.drop_last()[i] == w[i]);
            }
        }
        lemma_trim_end_skips(q, w.drop_last());
    } else {
        assert(q + w =~= q);
    }
}

/// Trimming the front of `p + w` either removes it all (when `p` is all
/// whitespace) or keeps `w` at the end.
proof fn lemma_trim_start_append(p: Seq<char>, w: Seq<char>)
    requires
        all_whitespace(w),
    ensures
        all_whitespace(p) ==> trim_start(p + w).len() == 0 && trim_start(p).len() == 0,
        !all_whitespace(p) ==> trim_start(p + w) == trim_start(p) + w,
    decreases p.len(),
{
    if p.len() == 0 {
        assert(p + w =~= w);
        lemma_trim_start_skips(w, Seq::empty());
        assert(w + Seq::<char>::empty() =~= w);
    } else {
        assert((p + w)[0] == p[0]);
        assert((p + w).drop_first() =~= p.drop_first() + w);
        if is_whitespace(p[0]) {
            assert(all_whitespace(p) == all_whitespace(p.drop_first())) by {
                if all_whitespace(p.drop_first()) {
                    assert forall|i: int| 0 <= i < p.len() implies is_whitespace(#[trigger] p[i]) by {
                        if i > 0 {
                            assert(p[i] == p.drop_first()[i - 1]);
                        }
                    }
                }
                if all_whitespace(p) {
                    assert forall|i: int| 0 <= i < p.drop_first().len() implies is_whitespace(
                        #[trigger] p.drop_first()[i],
                    ) by {
                        assert(p.drop_first()[i] == p[i + 1]);
                    }
                }
            }
            lemma_trim_start_append(p.drop_first(), w);
        } else {
            assert(!all_whitespace(p));
        }
    }
}

/// Whitespace around a path makes no difference to how it resolves.
pub proof fn lemma_surrounding_whitespace(before: Seq<char>, p: Seq<char>, after: Seq<char>)
    requires
        all_whitespace(before),
        all_whitespace(after),
    ensures
        normalized_path(before + p + after) == normalized_path(p),
{
    assert(before + p + after =~= before + (p + after));
    lemma_trim_start_skips(before, p + after);
    lemma_trim_start_append(p, after);
    if !all_whitespace(p) {
        lemma_trim_end_skips(trim_start(p), after);
    } else {
        assert(trim_start(p + after) =~= trim_start(p));
    }
}

/// The bounds `(a, b)` of the normalized path within `chars`.
fn normalized_bounds(chars: &Vec<char>) -> (r: (usize, usize))
    ensures
        r.0 <= r.1 <= chars@.len(),
        normalized_path(chars@) == chars@.subrange(r.0 as int, r.1 as int),
{
    let len = chars.len();
    let ghost s = chars@;
    let mut a: usize = 0;
    assert(s.subrange(0, len as int) =~= s);
    while a < len && whitespace(chars[a])
        invariant
            chars@ == s,
            len == s.len(),
            a <= len,
            trim_start(s) == trim_start(s.subrange(a as int, len as int)),
        decreases len - a,
    {
        assert(s.subrange(a as int, len as int).drop_first() =~= s.subrange(a + 1, len as int));
        a = a + 1;
    }
    assert(trim_start(s) == s.subrange(a as int, len as int));
    let mut b: usize = len;
    while b > a && whitespace(chars[b - 1])
        invariant
            chars@ == s,
            len == s.len(),
            a <= b <= len,
            trim_end(trim_start(s)) == trim_end(s.subrange(a as int, b as int)),
        decreases b,
    {
        assert(s.subrange(a as int, b as int).drop_last() =~= s.subrange(a as int, b - 1));
        b = b - 1;
    }
    assert(trim_end(trim_start(s)) == s.subrange(a as int, b as int));
    if b > a && chars[a] == '/' {
        assert(s.subrange(a as int, b as int).drop_first() =~= s.subrange(a + 1, b as int));
        a = a + 1;
    }
    if b > a && chars[b - 1] == '/' {
        assert(s.subrange(a as int, b as int).drop_last() =~= s.subrange(a as int, b - 1));
        b = b - 1;
    }
    (a, b)
}

/// Whether `chars[a..b]` contains `./`.
fn contains_dot_slash(chars: &Vec<char>, a: usize, b: usize) -> (found: bool)
    requires
        a <= b <= chars@.len(),
    ensures
        found == has_dot_slash(chars@.subrange(a as int, b as int)),
{
    let ghost s = chars@;
    let ghost n = s.subrange(a as int, b as int);
    let mut i: usize = a;
    while i < b
        invariant
            chars@ == s,
            a <= i <= b <= s.len(),
            n == s.subrange(a as int, b as int),
            forall|j: int| a <= j < i && j + 1 < b ==> !(#[trigger] s[j] == '.' && s[j + 1] == '/'),
        decreases b - i,
    {
        if i + 1 < b && chars[i] == '.' && chars[i + 1] == '/' {
            assert(n[i - a] == '.' && n[i - a + 1] == '/');
            return true;
        }
        i = i + 1;
    }
    assert forall|j: int| 0 <= j < n.len() - 1 implies !(#[trigger] n[j] == '.' && n[j + 1]
        == '/') by {
        assert(n[j] == s[a + j] && n[j + 1] == s[a + j + 1]);
    }
    false
}

/// The number of `/` in `chars[a..b]`.
fn count_slashes(chars: &Vec<char>, a: usize, b: usize) -> (count: usize)
    requires
        a <= b <= chars@.len(),
    ensures
        count == slash_count(chars@.subrange(a as int, b as int)),
{
    let ghost s = chars@;
    let mut count: usize = 0;
    let mut k: usize = a;
    assert(s.subrange(a as int, a as int).len() == 0);
    while k < b
        invariant
            chars@ == s,
            a <= k <= b <= s.len(),
            count == slash_count(s.subrange(a as int, k as int)),
            count <= k - a,
        decreases b - k,
    {
        assert(s.subrange(a as int, k + 1).drop_last() =~= s.subrange(a as int, k as int));
        if chars[k] == '/' {
            count = count + 1;
        }
        k = k + 1;
    }
    count
}

/// The pieces of `path` between the slashes of `path[a..b]`, as slices of
/// `path`.
fn cut_at_slashes<'p>(path: &'p str, chars: &Vec<char>, a: usize, b: usize) -> (parts: Vec<&'p str>)
    requires
        chars@ == path@,
        a <= b <= chars@.len(),
    ensures
        parts@.len() == slash_count(path@.subrange(a as int, b as int)) + 1,
        join_components(parts@.map_values(|p: &str| p@)) == path@.subrange(a as int, b as int),
        forall|m: int| 0 <= m < parts@.len() ==> !(#[trigger] parts@[m]@).contains('/'),
{
    let ghost s = chars@;
    let ghost n = s.subrange(a as int, b as int);
    let mut parts: Vec<&'p str> = Vec::new();
    let mut start: usize = a;
    let mut j: usize = a;
    assert(s.subrange(a as int, a as int).len() == 0);
    while j < b
        invariant
            chars@ == s,
            path@ == s,
            a <= start <= j <= b <= s.len(),
            n == s.subrange(a as int, b as int),
            parts@.len() == slash_count(s.subrange(a as int, j as int)),
            parts@.len() == 0 ==> start == a,
            parts@.len() > 0 ==> join_components(parts@.map_values(|p: &str| p@)) + seq!['/']
                == s.subrange(a as int, start as int),
            forall|m: int| start <= m < j ==> s[m] != '/',
            forall|m: int| 0 <= m < parts@.len() ==> !(#[trigger] parts@[m]@).contains('/'),
        decreases b - j,
    {
        assert(s.subrange(a as int, j + 1).drop_last() =~= s.subrange(a as int, j as int));
        if chars[j] == '/' {
            let part = path.substring_char(start, j);
            let ghost old_views = parts@.map_values(|p: &str| p@);
            parts.push(part);
            proof {
                let views = parts@.map_values(|p: &str| p@);
                assert(views.drop_last() =~= old_views);
                assert(!part@.contains('/')) by {
                    if part@.contains('/') {
                        let m = choose|m: int| 0 <= m < part@.len() && part@[m] == '/';
                        assert(s[start + m] == '/');
                    }
                }
                if old_views.len() == 0 {
                    assert(join_components(views) == part@);
                }
                assert(join_components(views) + seq!['/'] =~= s.subrange(a as int, j + 1));
            }
            start = j + 1;
        }
        j = j + 1;
    }
    let last = path.substring_char(start, b);
    let ghost old_views = parts@.map_values(|p: &str| p@);
    parts.push(last);
    proof {
        let views = parts@.map_values(|p: &str| p@);
        assert(views.drop_last() =~= old_views);
        assert(!last@.contains('/')) by {
            if last@.contains('/') {
                let m = choose|m: int| 0 <= m < last@.len() && last@[m] == '/';
                assert(s[start + m] == '/');
            }
        }
        if old_views.len() == 0 {
            assert(join_components(views) == last@);
            assert(last@ =~= n);
        } else {
            assert(join_components(views) =~= n);
        }
    }
    parts
}

/// Splits a path into its components, the directories to walk through and
/// then the name: the normalized path cut at every `/`. Fails when the
/// path contains `./` or `../`, and then when it has more than `MAX_DEPTH`
/// components.
pub fn resolve_path<'p>(path: &'p str) -> (r: Result<Vec<&'p str>, Error>)
    ensures
        ({
            let n = normalized_path(path@);
            match r {
                Err(e) => if has_dot_slash(n) {
                    e@ == dot_path_error()
                } else {
                    slash_count(n) + 1 > MAX_DEPTH && e@ == long_path_error()
                },
                Ok(parts) => {
                    &&& !has_dot_slash(n)
                    &&& parts@.len() == slash_count(n) + 1 <= MAX_DEPTH
                    &&& join_components(parts@.map_values(|s: &str| s@)) == n
                    &&& forall|i: int|
                        0 <= i < parts@.len() ==> !(#[trigger] parts@[i]@).contains('/')
                },
            }
        }),
{
    let chars = chars_of(path);
    let (a, b) = normalized_bounds(&chars);
    if contains_dot_slash(&chars, a, b) {
        return Err(Error::new("Path cannot contain \"./\" or \"../\""));
    }
    let slashes = count_slashes(&chars, a, b);
    if slashes >= MAX_DEPTH {
        return Err(Error::new("Path too long"));
    }
    Ok(cut_at_slashes(path, &chars, a, b))
}

} // verus!
