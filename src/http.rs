use vstd::prelude::*;
use vstd::slice::slice_subrange;

verus! {

/// Bytes of a request line that the extractor inspects from a candidate start
/// (fewer where the buffer ends sooner).
pub const WINDOW: usize = 32;

/// Offsets of one request line's method and path inside a received buffer.
#[derive(Copy, Clone, Default, Debug, PartialEq, Eq, Structural)]
pub struct RequestRawEntry {
    pub method_start: usize,
    pub method_len: u8,
    pub path_start: usize,
    pub path_len: u8,
}

/// `p` starts the literal `GET` or `POS` inside `s`.
pub open spec fn is_start(s: Seq<u8>, p: int) -> bool {
    &&& 0 <= p
    &&& p + 3 <= s.len()
    &&& {
        ||| (s[p] == 71u8 && s[p + 1] == 69u8 && s[p + 2] == 84u8)
        ||| (s[p] == 80u8 && s[p + 1] == 79u8 && s[p + 2] == 83u8)
    }
}

/// All candidate starts below `hi`, in increasing order.
pub open spec fn candidates(s: Seq<u8>, hi: int) -> Seq<usize>
    decreases hi,
{
    if hi <= 0 {
        Seq::empty()
    } else if is_start(s, hi - 1) {
        candidates(s, hi - 1).push((hi - 1) as usize)
    } else {
        candidates(s, hi - 1)
    }
}

/// The first `max` items of `x`, or all of them where there are fewer.
pub open spec fn take_upto<T>(x: Seq<T>, max: nat) -> Seq<T> {
    if x.len() <= max {
        x
    } else {
        x.subrange(0, max as int)
    }
}

/// Offset of the first space in `w` at or after `from`; `w.len()` where there is none.
pub open spec fn first_space(w: Seq<u8>, from: int) -> int
    decreases w.len() - from,
{
    if from >= w.len() {
        w.len() as int
    } else if from < 0 {
        first_space(w, 0)
    } else if w[from] == 32u8 {
        from
    } else {
        first_space(w, from + 1)
    }
}

/// `w` begins with `GET `.
pub open spec fn starts_get(w: Seq<u8>) -> bool {
    w.len() >= 4 && w[0] == 71u8 && w[1] == 69u8 && w[2] == 84u8 && w[3] == 32u8
}

/// `w` begins with `POST `.
pub open spec fn starts_post(w: Seq<u8>) -> bool {
    w.len() >= 5 && w[0] == 80u8 && w[1] == 79u8 && w[2] == 83u8 && w[3] == 84u8 && w[4] == 32u8
}

/// Length of the method of the request line in window `w`.
pub open spec fn method_len_of(w: Seq<u8>) -> int {
    if starts_get(w) {
        3
    } else if starts_post(w) {
        4
    } else {
        first_space(w, 0)
    }
}

/// End of the window read from `start`: `WINDOW` bytes on, or the end of `s`.
pub open spec fn window_end(s: Seq<u8>, start: int) -> int {
    if start + WINDOW <= s.len() {
        start + WINDOW
    } else {
        s.len() as int
    }
}

/// `w` holds a CR LF pair starting at or after `from`.
pub open spec fn crlf_from(w: Seq<u8>, from: int) -> bool
    decreases w.len() - from,
{
    if from < 0 || from + 1 >= w.len() {
        false
    } else if w[from] == 13u8 && w[from + 1] == 10u8 {
        true
    } else {
        crlf_from(w, from + 1)
    }
}

/// The request line read from the window at `start`: the method runs up to
/// the first space, the path up to the next one. Nothing where either space
/// is missing from the window or either part is empty, nor where the buffer
/// ends within `WINDOW` bytes and the line's CR LF is not in it (a truncated
/// request).
pub open spec fn parse_one(s: Seq<u8>, start: int) -> Option<RequestRawEntry> {
    let w = s.subrange(start, window_end(s, start));
    let ml = method_len_of(w);
    let ps = ml + 1;
    let pe = first_space(w, ps);
    if ml <= 0 || ml >= w.len() || pe >= w.len() || pe <= ps || (w.len() < WINDOW && !crlf_from(
        w,
        pe + 1,
    )) {
        None
    } else {
        Some(
            RequestRawEntry {
                method_start: start as usize,
                method_len: ml as u8,
                path_start: (start + ps) as usize,
                path_len: (pe - ps) as u8,
            },
        )
    }
}

/// The entry read at each start of `starts` inside `s`, in order.
pub open spec fn entries_from(s: Seq<u8>, starts: Seq<usize>) -> Seq<RequestRawEntry>
    decreases starts.len(),
{
    if starts.len() == 0 {
        Seq::empty()
    } else {
        let prev = entries_from(s, starts.drop_last());
        let p = starts.last() as int;
        if p < s.len() && parse_one(s, p) is Some {
            prev.push(parse_one(s, p)->Some_0)
        } else {
            prev
        }
    }
}

/// The requests that the fast extractor finds in `s` with at most `max`
/// candidate starts.
pub open spec fn fast_requests(s: Seq<u8>, max: nat) -> Seq<RequestRawEntry> {
    entries_from(s, take_upto(candidates(s, s.len() as int), max))
}

/// Both parts of `e` are non-empty and lie inside a buffer of `len` bytes.
pub open spec fn entry_in_bounds(e: RequestRawEntry, len: nat) -> bool {
    &&& e.method_len > 0
    &&& e.path_len > 0
    &&& e.method_start + e.method_len <= len
    &&& e.path_start + e.path_len <= len
}

proof fn lemma_first_space_bounds(w: Seq<u8>, from: int)
    requires
        0 <= from,
    ensures
        from <= first_space(w, from) <= w.len() || (from > w.len() && first_space(w, from)
            == w.len()),
        first_space(w, from) < w.len() ==> w[first_space(w, from)] == 32u8,
    decreases w.len() - from,
{
    if from < w.len() && w[from] != 32u8 {
        lemma_first_space_bounds(w, from + 1);
    }
}

proof fn lemma_parse_one_in_bounds(s: Seq<u8>, start: int)
    requires
        0 <= start < s.len(),
    ensures
        parse_one(s, start) is Some ==> entry_in_bounds(parse_one(s, start)->Some_0, s.len()),
{
    let w = s.subrange(start, window_end(s, start));
    let ml = method_len_of(w);
    lemma_first_space_bounds(w, 0);
    if ml + 1 >= 0 {
        lemma_first_space_bounds(w, ml + 1);
    }
}

proof fn lemma_candidates_prefix(s: Seq<u8>, i: int, j: int)
    requires
        i <= j,
    ensures
        candidates(s, i).len() <= candidates(s, j).len(),
        candidates(s, j).subrange(0, candidates(s, i).len() as int) == candidates(s, i),
    decreases j - i,
{
    if i < j {
        lemma_candidates_prefix(s, i, j - 1);
        assert(candidates(s, j).subrange(0, candidates(s, i).len() as int) =~= candidates(
            s,
            j - 1,
        ).subrange(0, candidates(s, i).len() as int));
    } else {
        assert(candidates(s, j).subrange(0, candidates(s, i).len() as int) =~= candidates(s, i));
    }
}

/// Every entry that the extractor returns has a non-empty method and a
/// non-empty path, both inside the scanned buffer.
pub proof fn lemma_fast_requests_in_bounds(s: Seq<u8>, max: nat)
    ensures
        forall|k: int|
            0 <= k < fast_requests(s, max).len() ==> entry_in_bounds(
                #[trigger] fast_requests(s, max)[k],
                s.len(),
            ),
{
    lemma_entries_in_bounds(s, take_upto(candidates(s, s.len() as int), max));
}

proof fn lemma_entries_in_bounds(s: Seq<u8>, starts: Seq<usize>)
    ensures
        forall|k: int|
            0 <= k < entries_from(s, starts).len() ==> entry_in_bounds(
                #[trigger] entries_from(s, starts)[k],
                s.len(),
            ),
    decreases starts.len(),
{
    if starts.len() > 0 {
        lemma_entries_in_bounds(s, starts.drop_last());
        let prev = entries_from(s, starts.drop_last());
        let p = starts.last() as int;
        if p < s.len() {
            lemma_parse_one_in_bounds(s, p);
        }
        assert forall|k: int| 0 <= k < entries_from(s, starts).len() implies entry_in_bounds(
            #[trigger] entries_from(s, starts)[k],
            s.len(),
        ) by {
            if k < prev.len() {
                assert(entries_from(s, starts)[k] == prev[k]);
            }
        }
    }
}

/// Offset of the first space in the `wl` bytes at `start`, from window
/// offset `from`; `wl` where there is none.
fn first_space_in(buf: &[u8], start: usize, wl: usize, from: usize) -> (r: usize)
    requires
        start + wl <= buf@.len(),
        from <= wl,
    ensures
        r == first_space(buf@.subrange(start as int, start + wl), from as int),
{
    let ghost w = buf@.subrange(start as int, start + wl);
    let len = buf.len();
    let mut j: usize = from;
    while j < wl && buf[start + j] != 32u8
        invariant
            from <= j <= wl,
            len == buf@.len(),
            start + wl <= len,
            w == buf@.subrange(start as int, start + wl),
            first_space(w, from as int) == first_space(w, j as int),
        decreases wl - j,
    {
        j += 1;
    }
    j
}

/// Whether the `wl` bytes at `start` hold a CR LF pair at or after window
/// offset `from`.
fn crlf_in(buf: &[u8], start: usize, wl: usize, from: usize) -> (r: bool)
    requires
        start + wl <= buf@.len(),
        from <= wl,
    ensures
        r == crlf_from(buf@.subrange(start as int, start + wl), from as int),
{
    let ghost w = buf@.subrange(start as int, start + wl);
    let len = buf.len();
    let mut j: usize = from;
    while j < wl && wl - j > 1
        invariant
            from <= j <= wl,
            len == buf@.len(),
            start + wl <= len,
            w == buf@.subrange(start as int, start + wl),
            crlf_from(w, from as int) == crlf_from(w, j as int),
        decreases wl - j,
    {
        if buf[start + j] == 13u8 && buf[start + j + 1] == 10u8 {
            return true;
        }
        j += 1;
    }
    false
}

/// Reads the request line whose window starts at `start`.
pub fn parse_one_manual(buf: &[u8], start: usize) -> (r: Option<RequestRawEntry>)
    requires
        start < buf@.len(),
    ensures
        r == parse_one(buf@, start as int),
        r is Some ==> entry_in_bounds(r->Some_0, buf@.len()),
{
    let len = buf.len();
    let wl: usize = if len - start >= WINDOW {
        WINDOW
    } else {
        len - start
    };
    let ghost w = buf@.subrange(start as int, start + wl);
    assert(w == buf@.subrange(start as int, window_end(buf@, start as int)));
    proof {
        lemma_parse_one_in_bounds(buf@, start as int);
        lemma_first_space_bounds(w, 0);
    }
    let ml: usize = if wl >= 4 && buf[start] == 71u8 && buf[start + 1] == 69u8 && buf[start + 2]
        == 84u8 && buf[start + 3] == 32u8 {
        3
    } else if wl >= 5 && buf[start] == 80u8 && buf[start + 1] == 79u8 && buf[start + 2] == 83u8
        && buf[start + 3] == 84u8 && buf[start + 4] == 32u8 {
        4
    } else {
        first_space_in(buf, start, wl, 0)
    };
    assert(ml == method_len_of(w));
    if ml == 0 || ml >= wl {
        return None;
    }
    let ps = ml + 1;
    let pe = first_space_in(buf, start, wl, ps);
    if pe >= wl || pe <= ps {
        return None;
    }
    if wl < WINDOW && !crlf_in(buf, start, wl, pe + 1) {
        return None;
    }
    Some(
        RequestRawEntry {
            method_start: start,
            method_len: ml as u8,
            path_start: start + ps,
            path_len: (pe - ps) as u8,
        },
    )
}

/// The candidate starts of request lines in `buf`: each offset where `GET` or
/// `POS` begins, in increasing order, at most `max` of them.
pub fn find_request_starts_avx2(buf: &[u8], max: usize) -> (r: Vec<usize>)
    ensures
        r@ == take_upto(candidates(buf@, buf@.len() as int), max as nat),
{
    let len = buf.len();
    let mut found: Vec<usize> = Vec::new();
    let mut i: usize = 0;
    while i < len && found.len() < max
        invariant
            i <= len,
            len == buf@.len(),
            found@ == candidates(buf@, i as int),
            found@.len() <= max,
        decreases len - i,
    {
        if len - i >= 3 && ((buf[i] == 71u8 && buf[i + 1] == 69u8 && buf[i + 2] == 84u8) || (buf[i]
            == 80u8 && buf[i + 1] == 79u8 && buf[i + 2] == 83u8)) {
            found.push(i);
        }
        i += 1;
    }
    proof {
        lemma_candidates_prefix(buf@, i as int, len as int);
        if i < len {
            assert(candidates(buf@, len as int).subrange(0, max as int) == found@);
        }
    }
    found
}

/// The request lines of a buffer of pipelined requests, read at the first
/// `max` candidate starts; a start that does not read as a request line is
/// skipped.
pub fn unreliable_parse_http_methods_paths(buf: &[u8], max: usize) -> (r: Vec<RequestRawEntry>)
    ensures
        r@ == fast_requests(buf@, max as nat),
        r@.len() <= max,
        forall|k: int| 0 <= k < r@.len() ==> entry_in_bounds(#[trigger] r@[k], buf@.len()),
{
    let starts = find_request_starts_avx2(buf, max);
    let len = buf.len();
    let mut out: Vec<RequestRawEntry> = Vec::new();
    let mut k: usize = 0;
    while k < starts.len()
        invariant
            k <= starts@.len(),
            len == buf@.len(),
            starts@ == take_upto(candidates(buf@, buf@.len() as int), max as nat),
            out@ == entries_from(buf@, starts@.subrange(0, k as int)),
            out@.len() <= k,
        decreases starts@.len() - k,
    {
        let start = starts[k];
        assert(starts@.subrange(0, k + 1).drop_last() =~= starts@.subrange(0, k as int));
        if start < len {
            match parse_one_manual(buf, start) {
                Some(e) => out.push(e),
                None => {},
            }
        }
        k += 1;
    }
    assert(starts@.subrange(0, k as int) =~= starts@);
    proof {
        lemma_fast_requests_in_bounds(buf@, max as nat);
        assert(out@ == fast_requests(buf@, max as nat));
        assert forall|k: int| 0 <= k < out@.len() implies entry_in_bounds(
            #[trigger] out@[k],
            buf@.len(),
        ) by {
            assert(out@[k] == fast_requests(buf@, max as nat)[k]);
        }
    }
    out
}

/// `s` holds CR LF CR LF at `i`.
pub open spec fn is_header_end(s: Seq<u8>, i: int) -> bool {
    &&& 0 <= i
    &&& i + 4 <= s.len()
    &&& s[i] == 13u8
    &&& s[i + 1] == 10u8
    &&& s[i + 2] == 13u8
    &&& s[i + 3] == 10u8
}

/// Offset of the first CR LF CR LF of `s` at or after `from`; `-1` where there is none.
pub open spec fn header_end(s: Seq<u8>, from: int) -> int
    decreases s.len() - from,
{
    if from < 0 || from + 4 > s.len() {
        -1
    } else if is_header_end(s, from) {
        from
    } else {
        header_end(s, from + 1)
    }
}

/// Offset of the first CR LF of `s` in `[from, hi)`; `hi` where there is none.
pub open spec fn line_end(s: Seq<u8>, from: int, hi: int) -> int
    decreases hi - from,
{
    if from < 0 || from >= hi || from + 2 > s.len() {
        hi
    } else if s[from] == 13u8 && s[from + 1] == 10u8 {
        from
    } else {
        line_end(s, from + 1, hi)
    }
}

/// Offset of the first space of `s` in `[from, hi)`; `hi` where there is none.
pub open spec fn space_in(s: Seq<u8>, from: int, hi: int) -> int
    decreases hi - from,
{
    if from < 0 || from >= hi || from >= s.len() {
        hi
    } else if s[from] == 32u8 {
        from
    } else {
        space_in(s, from + 1, hi)
    }
}

/// The request line of the header that starts at `from` and ends with the
/// CR LF CR LF at `e`: the method runs from `from` to the line's first space,
/// the path from there to its second space. Nothing where the line lacks two
/// spaces, or either part is empty or longer than 255 bytes.
pub open spec fn request_line(s: Seq<u8>, from: int, e: int) -> Option<RequestRawEntry> {
    let le = line_end(s, from, e);
    let ms = space_in(s, from, le);
    let pe = space_in(s, ms + 1, le);
    if ms <= from || ms >= le || pe >= le || pe <= ms + 1 || ms - from > 255 || pe - ms - 1
        > 255 {
        None
    } else {
        Some(
            RequestRawEntry {
                method_start: from as usize,
                method_len: (ms - from) as u8,
                path_start: (ms + 1) as usize,
                path_len: (pe - ms - 1) as u8,
            },
        )
    }
}

/// The request lines of the complete headers of `s` from offset `from` on, in
/// order, at most `max`: each header starts at `from` or right after the
/// previous one's CR LF CR LF, and a trailing header without its CR LF CR LF
/// is ignored.
pub open spec fn requests_from(s: Seq<u8>, from: int, max: nat) -> Seq<RequestRawEntry>
    decreases s.len() - from,
    via requests_from_decreases
{
    if from < 0 || from >= s.len() || max == 0 || header_end(s, from) < 0 {
        Seq::empty()
    } else {
        let e = header_end(s, from);
        match request_line(s, from, e) {
            Some(r) => seq![r] + requests_from(s, e + 4, (max - 1) as nat),
            None => requests_from(s, e + 4, max),
        }
    }
}

#[via_fn]
proof fn requests_from_decreases(s: Seq<u8>, from: int, max: nat) {
    lemma_header_end_bounds(s, from);
}

/// The requests that the extractor finds in `s`, at most `max`.
pub open spec fn requests(s: Seq<u8>, max: nat) -> Seq<RequestRawEntry> {
    requests_from(s, 0, max)
}

/// `p` starts a header: it is zero or follows a CR LF CR LF.
pub open spec fn header_start(s: Seq<u8>, p: int) -> bool {
    p == 0 || is_header_end(s, p - 4)
}

proof fn lemma_header_end_bounds(s: Seq<u8>, from: int)
    ensures
        header_end(s, from) >= 0 ==> from <= header_end(s, from) && is_header_end(
            s,
            header_end(s, from),
        ),
    decreases s.len() - from,
{
    if from >= 0 && from + 4 <= s.len() && !is_header_end(s, from) {
        lemma_header_end_bounds(s, from + 1);
    }
}

proof fn lemma_line_end_bounds(s: Seq<u8>, from: int, hi: int)
    requires
        from <= hi,
    ensures
        from <= line_end(s, from, hi) <= hi,
    decreases hi - from,
{
    if from >= 0 && from < hi && from + 2 <= s.len() && !(s[from] == 13u8 && s[from + 1]
        == 10u8) {
        lemma_line_end_bounds(s, from + 1, hi);
    }
}

proof fn lemma_space_in_bounds(s: Seq<u8>, from: int, hi: int)
    requires
        from <= hi,
    ensures
        from <= space_in(s, from, hi) <= hi,
    decreases hi - from,
{
    if from >= 0 && from < hi && from < s.len() && s[from] != 32u8 {
        lemma_space_in_bounds(s, from + 1, hi);
    }
}

proof fn lemma_request_line_shape(s: Seq<u8>, from: int, e: int)
    requires
        0 <= from <= e,
        s.len() <= usize::MAX,
        is_header_end(s, e),
    ensures
        request_line(s, from, e) matches Some(r) ==> {
            &&& entry_in_bounds(r, s.len())
            &&& r.method_start == from
        },
{
    lemma_line_end_bounds(s, from, e);
    let le = line_end(s, from, e);
    lemma_space_in_bounds(s, from, le);
    let ms = space_in(s, from, le);
    if ms + 1 <= le {
        lemma_space_in_bounds(s, ms + 1, le);
    }
}

proof fn lemma_requests_from_shape(s: Seq<u8>, from: int, max: nat)
    requires
        from >= 0,
        s.len() <= usize::MAX,
        header_start(s, from),
    ensures
        requests_from(s, from, max).len() <= max,
        forall|k: int|
            0 <= k < requests_from(s, from, max).len() ==> {
                let r = #[trigger] requests_from(s, from, max)[k];
                &&& entry_in_bounds(r, s.len())
                &&& header_start(s, r.method_start as int)
                &&& header_end(s, r.method_start as int) >= 0
            },
    decreases s.len() - from,
{
    if from < s.len() && max > 0 && header_end(s, from) >= 0 {
        let e = header_end(s, from);
        lemma_header_end_bounds(s, from);
        lemma_request_line_shape(s, from, e);
        match request_line(s, from, e) {
            Some(r) => {
                lemma_requests_from_shape(s, e + 4, (max - 1) as nat);
                let rest = requests_from(s, e + 4, (max - 1) as nat);
                assert forall|k: int| 0 <= k < requests_from(s, from, max).len() implies {
                    let r = #[trigger] requests_from(s, from, max)[k];
                    &&& entry_in_bounds(r, s.len())
                    &&& header_start(s, r.method_start as int)
                    &&& header_end(s, r.method_start as int) >= 0
                } by {
                    if k > 0 {
                        assert(requests_from(s, from, max)[k] == rest[k - 1]);
                    }
                }
            },
            None => {
                lemma_requests_from_shape(s, e + 4, max);
            },
        }
    }
}

/// Every entry that the extractor returns has a non-empty method and a
/// non-empty path inside the buffer, starts a header (at offset zero or right
/// after a CR LF CR LF), and that header ends with CR LF CR LF inside the
/// buffer.
pub proof fn lemma_requests_shape(s: Seq<u8>, max: nat)
    requires
        s.len() <= usize::MAX,
    ensures
        requests(s, max).len() <= max,
        forall|k: int|
            0 <= k < requests(s, max).len() ==> {
                let r = #[trigger] requests(s, max)[k];
                &&& entry_in_bounds(r, s.len())
                &&& header_start(s, r.method_start as int)
                &&& header_end(s, r.method_start as int) >= 0
            },
{
    lemma_requests_from_shape(s, 0, max);
}

/// Offset of the first CR LF CR LF of `buf` at or after `from`, where there is one.
fn find_header_end(buf: &[u8], from: usize) -> (r: Option<usize>)
    ensures
        match r {
            Some(e) => e == header_end(buf@, from as int) && e >= 0,
            None => header_end(buf@, from as int) < 0,
        },
{
    let len = buf.len();
    let mut j: usize = from;
    while j < len && len - j >= 4
        invariant
            from <= j,
            len == buf@.len(),
            header_end(buf@, from as int) == header_end(buf@, j as int),
        decreases len - j,
    {
        if buf[j] == 13u8 && buf[j + 1] == 10u8 && buf[j + 2] == 13u8 && buf[j + 3] == 10u8 {
            return Some(j);
        }
        j += 1;
    }
    None
}

/// Offset of the first CR LF of `buf` in `[from, hi)`; `hi` where there is none.
fn find_line_end(buf: &[u8], from: usize, hi: usize) -> (r: usize)
    requires
        from <= hi <= buf@.len(),
    ensures
        r == line_end(buf@, from as int, hi as int),
{
    let len = buf.len();
    let mut j: usize = from;
    while j < hi && len - j >= 2 && !(buf[j] == 13u8 && buf[j + 1] == 10u8)
        invariant
            from <= j <= hi,
            hi <= len,
            len == buf@.len(),
            line_end(buf@, from as int, hi as int) == line_end(buf@, j as int, hi as int),
        decreases hi - j,
    {
        j += 1;
    }
    if j < hi && len - j < 2 {
        return hi;
    }
    j
}

/// Offset of the first space of `buf` in `[from, hi)`; `hi` where there is none.
fn find_space(buf: &[u8], from: usize, hi: usize) -> (r: usize)
    requires
        from <= hi <= buf@.len(),
    ensures
        r == space_in(buf@, from as int, hi as int),
{
    let mut j: usize = from;
    while j < hi && buf[j] != 32u8
        invariant
            from <= j <= hi,
            hi <= buf@.len(),
            space_in(buf@, from as int, hi as int) == space_in(buf@, j as int, hi as int),
        decreases hi - j,
    {
        j += 1;
    }
    j
}

/// Reads the request line of the header from `from` to the CR LF CR LF at `e`.
fn read_request_line(buf: &[u8], from: usize, e: usize) -> (r: Option<RequestRawEntry>)
    requires
        from <= e,
        is_header_end(buf@, e as int),
    ensures
        r == request_line(buf@, from as int, e as int),
{
    proof {
        lemma_line_end_bounds(buf@, from as int, e as int);
    }
    let le = find_line_end(buf, from, e);
    proof {
        lemma_space_in_bounds(buf@, from as int, le as int);
    }
    let ms = find_space(buf, from, le);
    if ms <= from || ms >= le {
        return None;
    }
    proof {
        lemma_space_in_bounds(buf@, ms + 1, le as int);
    }
    let pe = find_space(buf, ms + 1, le);
    if pe >= le || pe <= ms + 1 || ms - from > 255 || pe - ms - 1 > 255 {
        return None;
    }
    Some(
        RequestRawEntry {
            method_start: from,
            method_len: (ms - from) as u8,
            path_start: ms + 1,
            path_len: (pe - ms - 1) as u8,
        },
    )
}

/// The request lines of a buffer of pipelined requests, at most `max`: each
/// complete header (ended by CR LF CR LF) is read from its first line, and a
/// trailing header without its CR LF CR LF is ignored.
pub fn parse_http_methods_paths(buf: &[u8], max: usize) -> (r: Vec<RequestRawEntry>)
    ensures
        r@ == requests(buf@, max as nat),
        r@.len() <= max,
        forall|k: int|
            0 <= k < r@.len() ==> {
                &&& entry_in_bounds(#[trigger] r@[k], buf@.len())
                &&& header_start(buf@, r@[k].method_start as int)
                &&& header_end(buf@, r@[k].method_start as int) >= 0
            },
{
    let len = buf.len();
    let mut out: Vec<RequestRawEntry> = Vec::new();
    let mut from: usize = 0;
    proof {
        lemma_requests_shape(buf@, max as nat);
    }
    while from < len && out.len() < max
        invariant
            len == buf@.len(),
            out@.len() <= max,
            requests(buf@, max as nat) == out@ + requests_from(
                buf@,
                from as int,
                (max - out@.len()) as nat,
            ),
        decreases len - from,
    {
        match find_header_end(buf, from) {
            None => {
                assert(requests_from(buf@, from as int, (max - out@.len()) as nat) =~= Seq::empty());
                assert(requests(buf@, max as nat) =~= out@);
                from = len;
            },
            Some(e) => {
                proof {
                    lemma_header_end_bounds(buf@, from as int);
                }
                let ghost before = out@;
                match read_request_line(buf, from, e) {
                    Some(entry) => {
                        out.push(entry);
                        assert(requests(buf@, max as nat) =~= out@ + requests_from(
                            buf@,
                            e + 4,
                            (max - out@.len()) as nat,
                        ));
                    },
                    None => {},
                }
                from = e + 4;
            },
        }
    }
    assert(requests_from(buf@, from as int, (max - out@.len()) as nat) =~= Seq::empty());
    assert(out@ =~= requests(buf@, max as nat));
    out
}

impl RequestRawEntry {
    /// The method bytes of this entry inside `buf`.
    pub fn method<'a>(&self, buf: &'a [u8]) -> (r: &'a [u8])
        requires
            self.method_start + self.method_len <= buf@.len(),
        ensures
            r@ == buf@.subrange(
                self.method_start as int,
                self.method_start + self.method_len,
            ),
    {
        let _len = buf.len();
        slice_subrange(buf, self.method_start, self.method_start + self.method_len as usize)
    }

    /// The path bytes of this entry inside `buf`.
    pub fn path<'a>(&self, buf: &'a [u8]) -> (r: &'a [u8])
        requires
            self.path_start + self.path_len <= buf@.len(),
        ensures
            r@ == buf@.subrange(self.path_start as int, self.path_start + self.path_len),
    {
        let _len = buf.len();
        slice_subrange(buf, self.path_start, self.path_start + self.path_len as usize)
    }
}

} // verus!
