//! The pane's own state, and the arithmetic behind it: the zoom ladder, the
//! host a zoom is remembered against, the find label, and what a tab's strip
//! title reads.
use vstd::prelude::*;
use crate::text::{
    append, chars_eq, chars_of, decimal, decimal_chars, first_occ, first_occ_exec, first_where,
    last_index_of, last_index_of_exec, lemma_last_index_of, lower_all, lower_chars, owned,
    slice_of, string_of, take_until, take_until3, trim, trim_chars,
};

verus! {

/// Chrome's zoom ladder, in percent.
pub open spec fn ladder() -> Seq<u32> {
    seq![25u32, 33, 50, 67, 75, 80, 90, 100, 110, 125, 150, 175, 200, 250, 300, 400]
}

/// Chrome's zoom ladder, in percent. CEF's zoom is a continuous level whose
/// scale is `1.2^level`; the pane steps along Chrome's ladder and converts at
/// the edge, so the bar reads 110% and 125%.
pub const ZOOM_LADDER: [u32; 16] = [25, 33, 50, 67, 75, 80, 90, 100, 110, 125, 150, 175, 200, 250, 300, 400];

pub const ZOOM_DEFAULT: u32 = 100;

fn ladder_at(i: usize) -> (r: u32)
    requires
        i < 16,
    ensures
        r == ladder()[i as int],
{
    let l = ZOOM_LADDER;
    assert(l@ =~= ladder());
    l[i]
}

/// The ladder step above `percent`, or the top of the ladder.
pub fn zoom_in(percent: u32) -> (r: u32)
    ensures
        ladder().contains(r),
        r > percent ==> forall|k: int| 0 <= k < 16 && ladder()[k] > percent ==> r <= ladder()[k],
        r <= percent ==> r == 400 && forall|k: int| 0 <= k < 16 ==> ladder()[k] <= percent,
{
    let mut i: usize = 0;
    while i < 16
        invariant
            i <= 16,
            forall|k: int| 0 <= k < i ==> ladder()[k] <= percent,
        decreases 16 - i,
    {
        let v = ladder_at(i);
        if v > percent {
            assert forall|k: int| 0 <= k < 16 && ladder()[k] > percent implies v <= ladder()[k] by {
                if k > i {
                    assert(ladder()[i as int] < ladder()[k]);
                }
            }
            return v;
        }
        i += 1;
    }
    assert(ladder()[15] == 400);
    400
}

/// The ladder step below `percent`, or the bottom of the ladder.
pub fn zoom_out(percent: u32) -> (r: u32)
    ensures
        ladder().contains(r),
        r < percent ==> forall|k: int| 0 <= k < 16 && ladder()[k] < percent ==> r >= ladder()[k],
        r >= percent ==> r == 25 && forall|k: int| 0 <= k < 16 ==> ladder()[k] >= percent,
{
    let mut i: usize = 16;
    while i > 0
        invariant
            i <= 16,
            forall|k: int| i <= k < 16 ==> ladder()[k] >= percent,
        decreases i,
    {
        let v = ladder_at(i - 1);
        if v < percent {
            assert forall|k: int| 0 <= k < 16 && ladder()[k] < percent implies v >= ladder()[k] by {
                if k < i - 1 {
                    assert(ladder()[k] < ladder()[i - 1]);
                }
            }
            return v;
        }
        i -= 1;
    }
    assert(ladder()[0] == 25);
    25
}

/// `<percent>%`, what the bar shows beside the address.
pub open spec fn percent_text(p: u32) -> Seq<char> {
    decimal(p as nat).push('%')
}

/// What the bar shows next to the address, or nothing at 100%.
pub fn zoom_label(percent: u32) -> (r: Option<String>)
    ensures
        percent == ZOOM_DEFAULT ==> r is None,
        percent != ZOOM_DEFAULT ==> (r matches Some(s) && s@ == percent_text(percent)),
{
    if percent == ZOOM_DEFAULT {
        return None;
    }
    let mut v = decimal_chars(percent as u64);
    v.push('%');
    Some(string_of(v.as_slice()))
}

/// The key a zoom is remembered against: the host, lower-cased, with no
/// scheme, user, port or path. A URL with no host has none.
pub open spec fn zoom_host_spec(url: Seq<char>) -> Option<Seq<char>> {
    let rest = match first_occ(url, seq![':', '/', '/']) {
        Some(i) => url.skip(i + 3),
        None => url,
    };
    let h1 = rest.take(first_where(rest, |x: char| x == '/' || x == '?' || x == '#'));
    let h2 = match last_index_of(h1, '@') {
        Some(i) => h1.skip(i + 1),
        None => h1,
    };
    let h3 = h2.take(first_where(h2, |x: char| x == ':'));
    if h3.len() > 0 {
        Some(lower_all(h3))
    } else {
        None
    }
}

fn zoom_host_chars(url: &[char]) -> (r: Option<Vec<char>>)
    ensures
        r matches Some(h) ==> zoom_host_spec(url@) == Some(h@),
        r is None ==> zoom_host_spec(url@) is None,
{
    let ulen = url.len();
    let sep: [char; 3] = [':', '/', '/'];
    assert(sep@ =~= seq![':', '/', '/']);
    let rest = match first_occ_exec(url, sep.as_slice()) {
        Some(i) => {
            proof {
                assert(crate::text::occurs_at(url@, sep@, i as int));
            }
            slice_of(url, i + 3, url.len())
        },
        None => slice_of(url, 0, url.len()),
    };
    assert(rest@ == match first_occ(url@, seq![':', '/', '/']) {
        Some(i) => url@.skip(i + 3),
        None => url@,
    });
    let h1 = take_until3(rest.as_slice(), '/', '?', '#');
    let h1len = h1.len();
    proof {
        lemma_last_index_of(h1@, '@');
    }
    let h2 = match last_index_of_exec(h1.as_slice(), '@') {
        Some(i) => slice_of(h1.as_slice(), i + 1, h1.len()),
        None => slice_of(h1.as_slice(), 0, h1.len()),
    };
    assert(h1@.subrange(0, h1@.len() as int) == h1@);
    let h3 = take_until(h2.as_slice(), ':');
    if h3.len() > 0 {
        Some(lower_chars(h3.as_slice()))
    } else {
        None
    }
}

/// The key a zoom is remembered against: the host, as Chrome does it, so
/// every page on a site opens at the size the last one was read at.
pub fn zoom_host(url: &str) -> (r: Option<String>)
    ensures
        r matches Some(h) ==> zoom_host_spec(url@) == Some(h@),
        r is None ==> zoom_host_spec(url@) is None,
{
    match zoom_host_chars(chars_of(url).as_slice()) {
        Some(h) => Some(string_of(h.as_slice())),
        None => None,
    }
}

/// The zoom remembered for `host`.
pub open spec fn zoom_for(v: Seq<(String, u32)>, host: Seq<char>) -> Option<u32>
    decreases v.len(),
{
    if v.len() == 0 {
        None
    } else if v.last().0@ == host {
        Some(v.last().1)
    } else {
        zoom_for(v.drop_last(), host)
    }
}

/// No host is named twice.
pub open spec fn distinct_hosts(v: Seq<(String, u32)>) -> bool {
    forall|i: int, j: int| 0 <= i < j < v.len() ==> v[i].0@ != v[j].0@
}

/// Per-host zoom, the pane's copy of what is written to the settings file.
#[derive(Debug)]
pub struct ZoomMemory {
    by_host: Vec<(String, u32)>,
}

proof fn lemma_zoom_for_found(v: Seq<(String, u32)>, i: int)
    requires
        distinct_hosts(v),
        0 <= i < v.len(),
    ensures
        zoom_for(v, v[i].0@) == Some(v[i].1),
    decreases v.len(),
{
    if i < v.len() - 1 {
        assert(v.last().0@ != v[i].0@);
        assert(v.drop_last()[i] == v[i]);
        lemma_zoom_for_found(v.drop_last(), i);
    }
}

proof fn lemma_zoom_for_absent(v: Seq<(String, u32)>, h: Seq<char>)
    requires
        forall|i: int| 0 <= i < v.len() ==> v[i].0@ != h,
    ensures
        zoom_for(v, h) is None,
    decreases v.len(),
{
    if v.len() > 0 {
        assert forall|i: int| 0 <= i < v.len() - 1 implies v.drop_last()[i].0@ != h by {
            assert(v.drop_last()[i] == v[i]);
        }
        lemma_zoom_for_absent(v.drop_last(), h);
    }
}

/// Where `host` sits in `v`.
fn find_host(v: &Vec<(String, u32)>, host: &[char]) -> (r: Option<usize>)
    requires
        distinct_hosts(v@),
    ensures
        r matches Some(i) ==> i < v@.len() && v@[i as int].0@ == host@ && zoom_for(v@, host@)
            == Some(v@[i as int].1),
        r is None ==> zoom_for(v@, host@) is None && forall|i: int|
            0 <= i < v@.len() ==> v@[i].0@ != host@,
{
    let mut i: usize = 0;
    while i < v.len()
        invariant
            i <= v@.len(),
            distinct_hosts(v@),
            forall|j: int| 0 <= j < i ==> v@[j].0@ != host@,
        decreases v@.len() - i,
    {
        if chars_eq(chars_of(v[i].0.as_str()).as_slice(), host) {
            proof {
                lemma_zoom_for_found(v@, i as int);
            }
            return Some(i);
        }
        i += 1;
    }
    proof {
        lemma_zoom_for_absent(v@, host@);
    }
    None
}

/// Put `host` at `percent`. Returns the zoom it had.
fn put_host(v: &mut Vec<(String, u32)>, host: &[char], percent: u32) -> (r: Option<u32>)
    requires
        distinct_hosts(old(v)@),
    ensures
        distinct_hosts(final(v)@),
        r == zoom_for(old(v)@, host@),
        forall|h: Seq<char>|
            #[trigger] zoom_for(final(v)@, h) == if h == host@ {
                Some(percent)
            } else {
                zoom_for(old(v)@, h)
            },
{
    let ghost o = v@;
    match find_host(v, host) {
        Some(i) => {
            let prev = v[i].1;
            let key = v[i].0.clone();
            v.set(i, (key, percent));
            proof {
                let n = v@;
                assert forall|a: int, b: int| 0 <= a < b < n.len() implies n[a].0@ != n[b].0@ by {
                    assert(n[a].0@ == o[a].0@);
                    assert(n[b].0@ == o[b].0@);
                }
                assert forall|h: Seq<char>| #[trigger] zoom_for(n, h) == if h == host@ {
                    Some(percent)
                } else {
                    zoom_for(o, h)
                } by {
                    if h == host@ {
                        lemma_zoom_for_found(n, i as int);
                    } else if exists|j: int| 0 <= j < o.len() && o[j].0@ == h {
                        let j = choose|j: int| 0 <= j < o.len() && o[j].0@ == h;
                        lemma_zoom_for_found(o, j);
                        lemma_zoom_for_found(n, j);
                    } else {
                        lemma_zoom_for_absent(o, h);
                        assert forall|j: int| 0 <= j < n.len() implies n[j].0@ != h by {
                            assert(n[j].0@ == o[j].0@);
                        }
                        lemma_zoom_for_absent(n, h);
                    }
                }
            }
            Some(prev)
        },
        None => {
            v.push((string_of(host), percent));
            proof {
                let n = v@;
                assert(n.drop_last() == o);
            }
            None
        },
    }
}

/// Forget `host`. Returns whether it was remembered.
fn forget_host(v: &mut Vec<(String, u32)>, host: &[char]) -> (r: bool)
    requires
        distinct_hosts(old(v)@),
    ensures
        distinct_hosts(final(v)@),
        r == zoom_for(old(v)@, host@) is Some,
        forall|h: Seq<char>|
            #[trigger] zoom_for(final(v)@, h) == if h == host@ {
                None
            } else {
                zoom_for(old(v)@, h)
            },
{
    let ghost o = v@;
    match find_host(v, host) {
        Some(i) => {
            v.remove(i);
            proof {
                let n = v@;
                assert(n == o.remove(i as int));
                assert forall|a: int, b: int| 0 <= a < b < n.len() implies n[a].0@ != n[b].0@ by {
                    let oa = if a < i { a } else { a + 1 };
                    let ob = if b < i { b } else { b + 1 };
                    assert(n[a] == o[oa]);
                    assert(n[b] == o[ob]);
                }
                assert forall|h: Seq<char>| #[trigger] zoom_for(n, h) == if h == host@ {
                    None
                } else {
                    zoom_for(o, h)
                } by {
                    if h == host@ {
                        assert forall|j: int| 0 <= j < n.len() implies n[j].0@ != h by {
                            let oj = if j < i { j } else { j + 1 };
                            assert(n[j] == o[oj]);
                        }
                        lemma_zoom_for_absent(n, h);
                    } else if exists|j: int| 0 <= j < o.len() && o[j].0@ == h {
                        let j = choose|j: int| 0 <= j < o.len() && o[j].0@ == h;
                        lemma_zoom_for_found(o, j);
                        let nj = if j < i { j } else { j - 1 };
                        assert(n[nj] == o[j]);
                        lemma_zoom_for_found(n, nj);
                    } else {
                        lemma_zoom_for_absent(o, h);
                        assert forall|j: int| 0 <= j < n.len() implies n[j].0@ != h by {
                            let oj = if j < i { j } else { j + 1 };
                            assert(n[j] == o[oj]);
                        }
                        lemma_zoom_for_absent(n, h);
                    }
                }
            }
            true
        },
        None => false,
    }
}

impl ZoomMemory {
    #[verifier::type_invariant]
    spec fn hosts_distinct(self) -> bool {
        distinct_hosts(self.by_host@)
    }

    /// The hosts and zooms held, each host once.
    pub closed spec fn entries(&self) -> Seq<(String, u32)> {
        self.by_host@
    }

    pub open spec fn wf(&self) -> bool {
        distinct_hosts(self.entries())
    }

    /// The zoom remembered for a host.
    pub open spec fn zoom_of(&self, host: Seq<char>) -> Option<u32> {
        zoom_for(self.entries(), host)
    }

    /// The zoom `url` opens at: its host's remembered zoom, or 100%.
    pub open spec fn zoom_at(&self, url: Seq<char>) -> u32 {
        match zoom_host_spec(url) {
            Some(h) => match self.zoom_of(h) {
                Some(z) => z,
                None => ZOOM_DEFAULT,
            },
            None => ZOOM_DEFAULT,
        }
    }

    /// Nothing remembered.
    pub fn new() -> (r: ZoomMemory)
        ensures
            r.wf(),
            forall|h: Seq<char>| #[trigger] r.zoom_of(h) is None,
    {
        ZoomMemory { by_host: Vec::new() }
    }

    /// The memory as saved in the settings file: a host and a zoom each.
    /// A host given twice keeps its later zoom.
    pub fn from_settings(saved: &Vec<(String, u32)>) -> (r: ZoomMemory)
        ensures
            r.wf(),
            forall|h: Seq<char>| #[trigger] r.zoom_of(h) == zoom_for(saved@, h),
    {
        let mut v: Vec<(String, u32)> = Vec::new();
        let mut i: usize = 0;
        while i < saved.len()
            invariant
                i <= saved@.len(),
                distinct_hosts(v@),
                forall|h: Seq<char>| #[trigger] zoom_for(v@, h) == zoom_for(saved@.take(i as int), h),
            decreases saved@.len() - i,
        {
            let host = chars_of(saved[i].0.as_str());
            put_host(&mut v, host.as_slice(), saved[i].1);
            proof {
                assert(saved@.take(i + 1).drop_last() == saved@.take(i as int));
                assert(saved@.take(i + 1).last() == saved@[i as int]);
            }
            i += 1;
        }
        assert(saved@.take(saved@.len() as int) == saved@);
        ZoomMemory { by_host: v }
    }

    /// What is written back to the settings file: a host and a zoom each,
    /// every host once.
    pub fn as_settings(&self) -> (r: Vec<(String, u32)>)
        ensures
            distinct_hosts(r@),
            forall|h: Seq<char>| #[trigger] zoom_for(r@, h) == self.zoom_of(h),
    {
        proof {
            use_type_invariant(self);
        }
        let mut r: Vec<(String, u32)> = Vec::new();
        let mut i: usize = 0;
        while i < self.by_host.len()
            invariant
                i <= self.by_host@.len(),
                r@.len() == i,
                forall|k: int| 0 <= k < i ==> #[trigger] r@[k].0@ == self.by_host@[k].0@ && r@[k].1
                    == self.by_host@[k].1,
            decreases self.by_host@.len() - i,
        {
            r.push((self.by_host[i].0.clone(), self.by_host[i].1));
            i += 1;
        }
        proof {
            let v = self.by_host@;
            assert forall|h: Seq<char>| #[trigger] zoom_for(r@, h) == zoom_for(v, h) by {
                if exists|j: int| 0 <= j < v.len() && v[j].0@ == h {
                    let j = choose|j: int| 0 <= j < v.len() && v[j].0@ == h;
                    lemma_zoom_for_found(v, j);
                    lemma_zoom_for_found(r@, j);
                } else {
                    lemma_zoom_for_absent(v, h);
                    lemma_zoom_for_absent(r@, h);
                }
            }
        }
        r
    }

    /// The zoom for a URL's host, or 100%.
    pub fn get(&self, url: &str) -> (r: u32)
        ensures
            r == self.zoom_at(url@),
    {
        proof {
            use_type_invariant(self);
        }
        match zoom_host_chars(chars_of(url).as_slice()) {
            Some(h) => match find_host(&self.by_host, h.as_slice()) {
                Some(i) => self.by_host[i].1,
                None => ZOOM_DEFAULT,
            },
            None => ZOOM_DEFAULT,
        }
    }

    /// Remember a zoom for a URL's host. 100% is the default, so it is
    /// forgotten rather than written. Returns true when the memory changed
    /// and the settings need a write.
    pub fn set(&mut self, url: &str, percent: u32) -> (r: bool)
        ensures
            final(self).wf(),
            match zoom_host_spec(url@) {
                None => !r && forall|h: Seq<char>| #[trigger]
                    final(self).zoom_of(h) == old(self).zoom_of(h),
                Some(host) => {
                    &&& forall|h: Seq<char>|
                        #[trigger] final(self).zoom_of(h) == if h == host {
                            if percent == ZOOM_DEFAULT {
                                None
                            } else {
                                Some(percent)
                            }
                        } else {
                            old(self).zoom_of(h)
                        }
                    &&& r == if percent == ZOOM_DEFAULT {
                        old(self).zoom_of(host) is Some
                    } else {
                        old(self).zoom_of(host) != Some(percent)
                    }
                    &&& final(self).zoom_at(url@) == percent
                },
            },
    {
        proof {
            use_type_invariant(&*self);
        }
        match zoom_host_chars(chars_of(url).as_slice()) {
            None => false,
            Some(h) => {
                let mut v: Vec<(String, u32)> = Vec::new();
                std::mem::swap(&mut v, &mut self.by_host);
                let changed = if percent == ZOOM_DEFAULT {
                    forget_host(&mut v, h.as_slice())
                } else {
                    let prev = put_host(&mut v, h.as_slice(), percent);
                    match prev {
                        Some(p) => p != percent,
                        None => true,
                    }
                };
                self.by_host = v;
                changed
            },
        }
    }
}

impl Clone for ZoomMemory {
    fn clone(&self) -> (r: ZoomMemory)
        ensures
            forall|h: Seq<char>| #[trigger] r.zoom_of(h) == self.zoom_of(h),
    {
        ZoomMemory { by_host: self.as_settings() }
    }
}

impl Default for ZoomMemory {
    fn default() -> (r: ZoomMemory)
        ensures
            r.wf(),
            forall|h: Seq<char>| #[trigger] r.zoom_of(h) is None,
    {
        ZoomMemory::new()
    }
}

/// Writing the memory to the settings file and reading it back gives the
/// same zoom for every host.
pub proof fn law_settings_round_trip(m: ZoomMemory, saved: Seq<(String, u32)>, back: ZoomMemory)
    requires
        m.wf(),
        forall|h: Seq<char>| #[trigger] zoom_for(saved, h) == m.zoom_of(h),
        forall|h: Seq<char>| #[trigger] back.zoom_of(h) == zoom_for(saved, h),
    ensures
        forall|h: Seq<char>| #[trigger] back.zoom_of(h) == m.zoom_of(h),
{
    assert forall|h: Seq<char>| #[trigger] back.zoom_of(h) == m.zoom_of(h) by {
        assert(back.zoom_of(h) == zoom_for(saved, h));
        assert(zoom_for(saved, h) == m.zoom_of(h));
    }
}

/// Where stepping `delta` tabs from tab `at` lands among `len` tabs, going
/// round at either end; nowhere when there are fewer than two tabs.
pub open spec fn step_index_spec(at: int, len: int, delta: int) -> Option<int> {
    if len < 2 {
        None
    } else {
        Some((at + delta) % len)
    }
}

proof fn lemma_negative_mod(d: int, l: int, neg: int, r: int)
    requires
        l >= 2,
        neg == -d,
        neg >= 1,
        r == neg % l,
    ensures
        (if r == 0 {
            0
        } else {
            l - r
        }) == d % l,
{
    let q = neg / l;
    vstd::arithmetic::div_mod::lemma_fundamental_div_mod(neg, l);
    assert(0 <= r < l) by {
        vstd::arithmetic::div_mod::lemma_mod_bound(neg, l);
    }
    assert(neg == l * q + r);
    if r == 0 {
        assert(d == (-q) * l + 0) by (nonlinear_arith)
            requires
                neg == l * q + r,
                r == 0,
                d == -neg,
        ;
        vstd::arithmetic::div_mod::lemma_fundamental_div_mod_converse_mod(d, l, -q, 0);
    } else {
        assert(d == (-q - 1) * l + (l - r)) by (nonlinear_arith)
            requires
                neg == l * q + r,
                d == -neg,
        ;
        vstd::arithmetic::div_mod::lemma_fundamental_div_mod_converse_mod(d, l, -q - 1, l - r);
    }
}

/// Every page on a site opens at the zoom the site was last read at: two
/// addresses on one host read the same remembered zoom.
pub proof fn law_a_host_keeps_its_zoom_across_pages(m: ZoomMemory, a: Seq<char>, b: Seq<char>)
    requires
        zoom_host_spec(a) is Some,
        zoom_host_spec(a) == zoom_host_spec(b),
    ensures
        m.zoom_at(a) == m.zoom_at(b),
{
}

/// The tab the next or previous tab chord activates.
pub fn step_index(at: usize, len: usize, delta: isize) -> (r: Option<usize>)
    requires
        at < len,
        isize::MIN <= at + delta <= isize::MAX,
    ensures
        r matches Some(i) ==> i < len,
        match step_index_spec(at as int, len as int, delta as int) {
            Some(i) => r == Some(i as usize),
            None => r is None,
        },
{
    if len < 2 {
        return None;
    }
    let k: usize = if delta >= 0 {
        (delta as usize) % len
    } else {
        let neg: usize = ((-(delta + 1)) as usize) + 1;
        let r = neg % len;
        proof {
            lemma_negative_mod(delta as int, len as int, neg as int, r as int);
        }
        if r == 0 {
            0
        } else {
            len - r
        }
    };
    assert(k < len && k as int == (delta as int) % (len as int));
    proof {
        vstd::arithmetic::div_mod::lemma_add_mod_noop(at as int, delta as int, len as int);
        vstd::arithmetic::div_mod::lemma_small_mod(at as nat, len as nat);
        vstd::arithmetic::div_mod::lemma_small_mod(k as nat, len as nat);
        vstd::arithmetic::div_mod::lemma_mod_bound(at + delta, len as int);
    }
    let next: usize = if at >= len - k {
        at - (len - k)
    } else {
        at + k
    };
    proof {
        if at >= len - k {
            vstd::arithmetic::div_mod::lemma_mod_sub_multiples_vanish((at + k) as int, len as int);
            vstd::arithmetic::div_mod::lemma_small_mod((at + k - len) as nat, len as nat);
        } else {
            vstd::arithmetic::div_mod::lemma_small_mod((at + k) as nat, len as nat);
        }
    }
    Some(next)
}

/// `<current> of <total>`.
pub open spec fn of_text(current: nat, total: nat) -> Seq<char> {
    decimal(current) + " of "@ + decimal(total)
}

/// What the find field reports: "3 of 12", or "No results". CEF reports the
/// ordinal as 0 for the first update of a match run, so it reads as 1.
pub fn find_label(current: i32, total: i32) -> (r: Option<String>)
    ensures
        total <= 0 ==> (r matches Some(s) && s@ == "No results"@),
        total > 0 ==> (r matches Some(s) && s@ == of_text(
            if current < 1 {
                1nat
            } else {
                current as nat
            },
            total as nat,
        )),
{
    if total <= 0 {
        return Some(owned("No results"));
    }
    let c: i32 = if current < 1 {
        1
    } else {
        current
    };
    let mut v = decimal_chars(c as u64);
    let of = chars_of(" of ");
    append(&mut v, of.as_slice());
    append(&mut v, decimal_chars(total as u64).as_slice());
    Some(string_of(v.as_slice()))
}

/// The words on a tab: its title; a page that has not said its title yet
/// shows its host, and a tab with neither reads "New tab".
pub fn tab_title(title: &str, url: &str) -> (r: String)
    ensures
        trim(title@).len() > 0 ==> r@ == trim(title@),
        trim(title@).len() == 0 ==> r@ == match zoom_host_spec(url@) {
            Some(h) => h,
            None => "New tab"@,
        },
{
    let t = trim_chars(chars_of(title).as_slice());
    if t.len() > 0 {
        return string_of(t.as_slice());
    }
    match zoom_host(url) {
        Some(h) => h,
        None => owned("New tab"),
    }
}

} // verus!
