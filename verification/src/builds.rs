//! The builds of a game: ordering them latest first by their publication
//! time, picking the latest, and their menu lines.
use vstd::prelude::*;
use crate::text::str_eq;

verus! {

/// A published build of a game.
#[derive(Clone, Debug, PartialEq, Eq)]
pub struct GameBuild {
    pub version_name: String,
    pub date_published: String,
}

/// The abstract value of a build.
pub struct BuildView {
    pub version_name: Seq<char>,
    pub date_published: Seq<char>,
}

impl View for GameBuild {
    type V = BuildView;

    open spec fn view(&self) -> BuildView {
        BuildView { version_name: self.version_name@, date_published: self.date_published@ }
    }
}

impl GameBuild {
    /// A copy with the same contents.
    pub fn copied(&self) -> (r: GameBuild)
        ensures
            r@ == self@,
    {
        GameBuild { version_name: self.version_name.clone(), date_published: self.date_published.clone() }
    }
}

/// The abstract values of a sequence of builds.
pub open spec fn builds_view(v: Seq<GameBuild>) -> Seq<BuildView> {
    v.map_values(|b: GameBuild| b@)
}

/// An instant as (seconds since the Unix epoch, nanoseconds past that
/// second); comparing these pairs in order compares the instants.
pub type Instant = (i64, u32);

/// The instant that `chrono::DateTime::parse_from_str` reads from `date` in
/// the format `%Y-%m-%dT%H:%M:%S%z`, or `None` where it rejects the text.
pub uninterp spec fn publish_time(date: Seq<char>) -> Option<Instant>;

/// A decimal digit character.
pub open spec fn is_digit(c: char) -> bool {
    '0' <= c && c <= '9'
}

/// The number written by the `n` digits of `d` from position `i` on.
pub open spec fn number_at(d: Seq<char>, i: int, n: nat) -> int
    decreases n,
{
    if n == 0 {
        0
    } else {
        number_at(d, i, (n - 1) as nat) * 10 + ((d[i + n - 1] as int) - ('0' as int))
    }
}

/// The positions of `YYYY-MM-DDTHH:MM:SS+HHMM` that hold digits.
pub open spec fn date_digit_position(i: int) -> bool {
    0 <= i < 24 && i != 4 && i != 7 && i != 10 && i != 13 && i != 16 && i != 19
}

/// A leap year of the Gregorian calendar.
pub open spec fn leap_year(y: int) -> bool {
    (y % 4 == 0 && y % 100 != 0) || y % 400 == 0
}

/// The number of days of month `m` (1 to 12) of year `y`.
pub open spec fn days_in_month(y: int, m: int) -> int {
    if m == 2 {
        if leap_year(y) { 29 } else { 28 }
    } else if m == 4 || m == 6 || m == 9 || m == 11 {
        30
    } else {
        31
    }
}

/// The days of year `y` before the first of month `m`.
pub open spec fn days_before_month(y: int, m: int) -> int {
    let base: int = if m == 1 { 0 }
        else if m == 2 { 31 }
        else if m == 3 { 59 }
        else if m == 4 { 90 }
        else if m == 5 { 120 }
        else if m == 6 { 151 }
        else if m == 7 { 181 }
        else if m == 8 { 212 }
        else if m == 9 { 243 }
        else if m == 10 { 273 }
        else if m == 11 { 304 }
        else { 334 };
    if m > 2 && leap_year(y) { base + 1 } else { base }
}

/// The days from 0001-01-01 to the first of January of year `y` (from 1).
pub open spec fn days_before_year(y: int) -> int {
    365 * (y - 1) + (y - 1) / 4 - (y - 1) / 100 + (y - 1) / 400
}

/// A date written `YYYY-MM-DDTHH:MM:SS+HHMM` (or `-HHMM`) with a real
/// calendar day of the years 1 to 9999, a time of day without leap second and
/// an offset below a day: a text that the format `%Y-%m-%dT%H:%M:%S%z` reads.
pub open spec fn utc_date(d: Seq<char>) -> bool {
    &&& d.len() == 24
    &&& d[4] == '-' && d[7] == '-' && d[10] == 'T' && d[13] == ':' && d[16] == ':'
    &&& (d[19] == '+' || d[19] == '-')
    &&& forall|i: int| #[trigger] date_digit_position(i) ==> is_digit(d[i])
    &&& 1 <= number_at(d, 0, 4)
    &&& 1 <= number_at(d, 5, 2) <= 12
    &&& 1 <= number_at(d, 8, 2) <= days_in_month(number_at(d, 0, 4), number_at(d, 5, 2))
    &&& number_at(d, 11, 2) <= 23
    &&& number_at(d, 14, 2) <= 59
    &&& number_at(d, 17, 2) <= 59
    &&& number_at(d, 20, 2) <= 23
    &&& number_at(d, 22, 2) <= 59
}

/// The seconds since the Unix epoch of the UTC instant that a `utc_date`
/// text names: its local date and time less its offset.
pub open spec fn utc_seconds(d: Seq<char>) -> int {
    let y = number_at(d, 0, 4);
    let m = number_at(d, 5, 2);
    let day = number_at(d, 8, 2);
    let days = days_before_year(y) + days_before_month(y, m) + day - 1 - 719162;
    let local = days * 86400 + number_at(d, 11, 2) * 3600 + number_at(d, 14, 2) * 60 + number_at(d, 17, 2);
    let offset = number_at(d, 20, 2) * 3600 + number_at(d, 22, 2) * 60;
    if d[19] == '-' { local + offset } else { local - offset }
}

/// What reading a `utc_date` text gives: the instant it names, to the whole
/// second.
pub open spec fn read_as_utc(d: Seq<char>) -> bool {
    utc_date(d) ==> publish_time(d) is Some && (publish_time(d)->0).0 == utc_seconds(d)
        && (publish_time(d)->0).1 == 0
}

/// Reads a publication date.
///
/// Calls `chrono::DateTime::parse_from_str(date, "%Y-%m-%dT%H:%M:%S%z")` and
/// keeps `timestamp()` and `timestamp_subsec_nanos()` of the result. For a
/// text in exactly that form with a real date (`utc_date`) the result is the
/// UTC instant it names, in whole seconds; chrono's reading of other texts
/// (other widths, a colon in the offset, leap seconds) is only named.
#[verifier::external_body]
fn parse_publish_time(date: &str) -> (r: Option<Instant>)
    ensures
        r == publish_time(date@),
        utc_date(date@) ==> r is Some && (r->0).0 == utc_seconds(date@) && (r->0).1 == 0,
{
    match chrono::DateTime::parse_from_str(date, "%Y-%m-%dT%H:%M:%S%z") {
        Ok(dt) => Some((dt.timestamp(), dt.timestamp_subsec_nanos())),
        Err(_) => None,
    }
}

/// `a` is strictly later than `b`.
pub open spec fn later(a: Instant, b: Instant) -> bool {
    a.0 > b.0 || (a.0 == b.0 && a.1 > b.1)
}

/// Whether `a` is strictly later than `b`.
pub fn is_later(a: Instant, b: Instant) -> (r: bool)
    ensures
        r == later(a, b),
{
    a.0 > b.0 || (a.0 == b.0 && a.1 > b.1)
}

/// `p` lists the positions of the builds that have an instant in `times`,
/// each once, latest first, and in their given order where two instants are
/// equal.
pub open spec fn latest_first(times: Seq<Option<Instant>>, p: Seq<int>) -> bool {
    &&& forall|k: int| 0 <= k < p.len() ==> 0 <= #[trigger] p[k] < times.len() && times[p[k]] is Some
    &&& forall|i: int| 0 <= i < times.len() && (#[trigger] times[i]) is Some ==> p.contains(i)
    &&& forall|k: int, l: int|
        0 <= k < l < p.len() ==> later(times[#[trigger] p[k]]->0, times[#[trigger] p[l]]->0) || (
        times[p[k]]->0 == times[p[l]]->0 && p[k] < p[l])
}

/// The builds at the positions `p`, in that order.
pub open spec fn pick(builds: Seq<BuildView>, p: Seq<int>) -> Seq<BuildView> {
    p.map_values(|i: int| builds[i])
}

/// Orders builds latest first by the instants given for them (`times[i]` for
/// `builds[i]`), dropping those without one; builds of equal instants keep
/// their order.
pub fn sort_builds_by_time(builds: Vec<GameBuild>, times: Vec<Option<Instant>>) -> (r: Vec<GameBuild>)
    requires
        builds@.len() == times@.len(),
    ensures
        exists|p: Seq<int>|
            #[trigger] latest_first(times@, p) && builds_view(r@) == pick(
                builds_view(builds@),
                p,
            ),
{
    let ghost bv = builds_view(builds@);
    let ghost ts = times@;
    let mut out: Vec<GameBuild> = Vec::new();
    let mut keys: Vec<Instant> = Vec::new();
    let ghost mut p: Seq<int> = Seq::empty();
    let mut i: usize = 0;
    while i < builds.len()
        invariant
            bv == builds_view(builds@),
            ts == times@,
            builds@.len() == times@.len(),
            i <= builds@.len(),
            out@.len() == p.len(),
            keys@.len() == p.len(),
            forall|k: int| 0 <= k < p.len() ==> 0 <= #[trigger] p[k] < i && ts[p[k]] is Some,
            forall|k: int| 0 <= k < p.len() ==> ts[p[k]]->0 == #[trigger] keys@[k],
            forall|k: int| 0 <= k < p.len() ==> (#[trigger] out@[k])@ == bv[p[k]],
            forall|j: int| 0 <= j < i && (#[trigger] ts[j]) is Some ==> p.contains(j),
            forall|k: int, l: int|
                0 <= k < l < p.len() ==> later(#[trigger] keys@[k], #[trigger] keys@[l]) || (
                keys@[k] == keys@[l] && p[k] < p[l]),
        decreases builds@.len() - i,
    {
        match times[i] {
            Some(t) => {
                let mut pos: usize = 0;
                while pos < keys.len() && !is_later(t, keys[pos])
                    invariant
                        pos <= keys@.len(),
                        forall|k: int| 0 <= k < pos ==> !later(t, #[trigger] keys@[k]),
                    decreases keys@.len() - pos,
                {
                    pos = pos + 1;
                }
                proof {
                    assert forall|k: int| pos <= k < keys@.len() implies later(t, #[trigger] keys@[k]) by {
                        if k > pos {
                            assert(later(keys@[pos as int], keys@[k]) || keys@[pos as int] == keys@[k]);
                        }
                    }
                }
                let ghost old_p = p;
                let ghost old_keys = keys@;
                let ghost old_out = out@;
                out.insert(pos, builds[i].copied());
                keys.insert(pos, t);
                proof {
                    p = old_p.insert(pos as int, i as int);
                    assert forall|k: int| 0 <= k < p.len() implies ts[p[k]]->0 == #[trigger] keys@[k] by {
                        if k < pos {
                            assert(p[k] == old_p[k]);
                        } else if k > pos {
                            assert(p[k] == old_p[k - 1]);
                        }
                    }
                    assert forall|k: int| 0 <= k < p.len() implies (#[trigger] out@[k])@ == bv[p[k]] by {
                        if k < pos {
                            assert(p[k] == old_p[k]);
                        } else if k > pos {
                            assert(p[k] == old_p[k - 1]);
                        }
                    }
                    assert forall|k: int| 0 <= k < p.len() implies 0 <= #[trigger] p[k] < i + 1 && ts[p[k]] is Some by {
                        if k < pos {
                            assert(p[k] == old_p[k]);
                        } else if k > pos {
                            assert(p[k] == old_p[k - 1]);
                        }
                    }
                    assert forall|j: int| 0 <= j < i + 1 && (#[trigger] ts[j]) is Some implies p.contains(j) by {
                        if j == i {
                            assert(p[pos as int] == j);
                        } else {
                            let k = choose|k: int| 0 <= k < old_p.len() && old_p[k] == j;
                            if k < pos {
                                assert(p[k] == j);
                            } else {
                                assert(p[k + 1] == j);
                            }
                        }
                    }
                    assert forall|k: int, l: int|
                        0 <= k < l < p.len() implies later(#[trigger] keys@[k], #[trigger] keys@[l]) || (
                        keys@[k] == keys@[l] && p[k] < p[l]) by {
                        let ok = if k < pos { k } else { k - 1 };
                        let ol = if l < pos { l } else { l - 1 };
                        if k == pos {
                            assert(keys@[k] == t);
                            assert(keys@[l] == old_keys[ol]);
                            assert(later(t, old_keys[ol]));
                        } else if l == pos {
                            assert(keys@[l] == t);
                            assert(keys@[k] == old_keys[ok]);
                            assert(!later(t, old_keys[ok]));
                            assert(p[k] == old_p[ok]);
                            assert(p[l] == i);
                        } else {
                            assert(keys@[k] == old_keys[ok]);
                            assert(keys@[l] == old_keys[ol]);
                            assert(p[k] == old_p[ok]);
                            assert(p[l] == old_p[ol]);
                            assert(ok < ol);
                        }
                    }
                }
            },
            None => {},
        }
        i = i + 1;
    }
    proof {
        assert(latest_first(ts, p)) by {
            assert forall|k: int, l: int|
                0 <= k < l < p.len() implies later(ts[#[trigger] p[k]]->0, ts[#[trigger] p[l]]->0) || (
                ts[p[k]]->0 == ts[p[l]]->0 && p[k] < p[l]) by {
                assert(ts[p[k]]->0 == keys@[k]);
                assert(ts[p[l]]->0 == keys@[l]);
            }
        }
        assert(builds_view(out@) =~= pick(bv, p));
    }
    out
}

/// The publication instants of the builds, as chrono reads their dates.
pub open spec fn publish_times(builds: Seq<BuildView>) -> Seq<Option<Instant>> {
    builds.map_values(|b: BuildView| publish_time(b.date_published))
}

/// Orders builds latest first by publication date; builds whose date does
/// not parse are dropped, and builds published at the same instant keep
/// their order.
pub fn list_builds(builds: Vec<GameBuild>) -> (r: Vec<GameBuild>)
    ensures
        exists|p: Seq<int>|
            #[trigger] latest_first(publish_times(builds_view(builds@)), p) && builds_view(r@) == pick(builds_view(builds@), p),
        forall|i: int, j: int|
            0 <= i < j < r@.len() && utc_date(r@[i].date_published@) && utc_date(
                r@[j].date_published@,
            ) ==> utc_seconds(#[trigger] r@[i].date_published@) >= utc_seconds(
                #[trigger] r@[j].date_published@,
            ),
        forall|k: int|
            0 <= k < builds@.len() && utc_date(#[trigger] builds@[k].date_published@) ==> exists|m: int|
                0 <= m < r@.len() && (#[trigger] r@[m])@ == builds@[k]@,
{
    let ghost bv = builds_view(builds@);
    let mut times: Vec<Option<Instant>> = Vec::new();
    let mut i: usize = 0;
    while i < builds.len()
        invariant
            bv == builds_view(builds@),
            i <= builds@.len(),
            times@ == publish_times(bv).take(i as int),
            forall|k: int| 0 <= k < i ==> read_as_utc(#[trigger] bv[k].date_published),
        decreases builds@.len() - i,
    {
        let t = parse_publish_time(builds[i].date_published.as_str());
        times.push(t);
        i = i + 1;
        assert(times@ =~= publish_times(bv).take(i as int));
    }
    assert(times@ =~= publish_times(bv));
    let r = sort_builds_by_time(builds, times);
    proof {
        let p = choose|p: Seq<int>| #[trigger] latest_first(publish_times(bv), p) && builds_view(r@) == pick(bv, p);
        law_dated_builds_latest_first(bv, p);
        assert(builds_view(r@).len() == r@.len());
        assert(pick(bv, p).len() == p.len());
        assert forall|i: int, j: int|
            0 <= i < j < r@.len() && utc_date(r@[i].date_published@) && utc_date(
                r@[j].date_published@,
            ) implies utc_seconds(#[trigger] r@[i].date_published@) >= utc_seconds(
                #[trigger] r@[j].date_published@,
            ) by {
            assert(builds_view(r@)[i] == bv[p[i]]);
            assert(builds_view(r@)[j] == bv[p[j]]);
        }
        assert forall|k: int|
            0 <= k < builds@.len() && utc_date(#[trigger] builds@[k].date_published@) implies exists|m: int|
                0 <= m < r@.len() && (#[trigger] r@[m])@ == builds@[k]@ by {
            assert(bv[k] == builds@[k]@);
            assert(utc_date(bv[k].date_published));
            assert(p.contains(k));
            let m = choose|m: int| 0 <= m < p.len() && p[m] == k;
            assert(builds_view(r@)[m] == bv[p[m]]);
            assert(r@[m]@ == builds@[k]@);
        }
    }
    r
}

/// Builds are listed by the instant their date names: where every date of
/// the `utc_date` form is read as the UTC instant it names, an order that
/// meets `latest_first` lists every such build, puts one with a later UTC
/// instant before one with an earlier, and keeps two of the same instant in
/// their given order.
pub proof fn law_dated_builds_latest_first(builds: Seq<BuildView>, p: Seq<int>)
    requires
        latest_first(publish_times(builds), p),
        forall|k: int| 0 <= k < builds.len() ==> read_as_utc(#[trigger] builds[k].date_published),
    ensures
        forall|k: int| 0 <= k < builds.len() && utc_date(#[trigger] builds[k].date_published) ==> p.contains(k),
        forall|i: int, j: int|
            0 <= i < j < p.len() && utc_date(builds[p[i]].date_published) && utc_date(
                builds[p[j]].date_published,
            ) ==> utc_seconds(builds[#[trigger] p[i]].date_published) > utc_seconds(
                builds[#[trigger] p[j]].date_published,
            ) || (utc_seconds(builds[p[i]].date_published) == utc_seconds(builds[p[j]].date_published)
                && p[i] < p[j]),
{
    let ts = publish_times(builds);
    assert forall|k: int| 0 <= k < builds.len() && utc_date(#[trigger] builds[k].date_published) implies p.contains(k) by {
        assert(read_as_utc(builds[k].date_published));
        assert(ts[k] is Some);
    }
    assert forall|i: int, j: int|
        0 <= i < j < p.len() && utc_date(builds[p[i]].date_published) && utc_date(
            builds[p[j]].date_published,
        ) implies utc_seconds(builds[#[trigger] p[i]].date_published) > utc_seconds(
            builds[#[trigger] p[j]].date_published,
        ) || (utc_seconds(builds[p[i]].date_published) == utc_seconds(builds[p[j]].date_published)
            && p[i] < p[j]) by {
        assert(read_as_utc(builds[p[i]].date_published));
        assert(read_as_utc(builds[p[j]].date_published));
        assert(later(ts[p[i]]->0, ts[p[j]]->0) || (ts[p[i]]->0 == ts[p[j]]->0 && p[i] < p[j]));
    }
}


/// `i` is the position of the latest build that has an instant: no build is
/// later, and none of the same instant comes before it.
pub open spec fn is_latest(times: Seq<Option<Instant>>, i: int) -> bool {
    &&& 0 <= i < times.len()
    &&& times[i] is Some
    &&& forall|j: int|
        0 <= j < times.len() && (#[trigger] times[j]) is Some ==> !later(times[j]->0, times[i]->0)
            && (times[j]->0 == times[i]->0 ==> i <= j)
}

/// The order of `latest_first` between two positions: `i` has the later
/// instant, or the same instant and comes first.
pub open spec fn listed_before(times: Seq<Option<Instant>>, i: int, j: int) -> bool {
    later(times[i]->0, times[j]->0) || (times[i]->0 == times[j]->0 && i < j)
}

proof fn lemma_listed_sorted_unique(times: Seq<Option<Instant>>, p: Seq<int>, q: Seq<int>)
    requires
        forall|k: int, l: int| 0 <= k < l < p.len() ==> listed_before(times, #[trigger] p[k], #[trigger] p[l]),
        forall|k: int, l: int| 0 <= k < l < q.len() ==> listed_before(times, #[trigger] q[k], #[trigger] q[l]),
        forall|i: int| p.contains(i) <==> q.contains(i),
    ensures
        p == q,
    decreases p.len(),
{
    if p.len() == 0 {
        if q.len() > 0 {
            assert(q.contains(q[0]));
        }
        assert(p =~= q);
    } else {
        assert(p.contains(p[0]));
        let j = choose|j: int| 0 <= j < q.len() && q[j] == p[0];
        assert(q.contains(q[0]));
        let i = choose|i: int| 0 <= i < p.len() && p[i] == q[0];
        if j > 0 {
            assert(listed_before(times, q[0], q[j]));
            if i > 0 {
                assert(listed_before(times, p[0], p[i]));
            }
        }
        assert(p[0] == q[0]);
        let rp = p.drop_first();
        let rq = q.drop_first();
        assert forall|x: int| rp.contains(x) <==> rq.contains(x) by {
            if rp.contains(x) {
                let k = choose|k: int| 0 <= k < rp.len() && rp[k] == x;
                assert(p[k + 1] == x);
                assert(listed_before(times, p[0], p[k + 1]));
                assert(q.contains(x));
                let m = choose|m: int| 0 <= m < q.len() && q[m] == x;
                assert(m != 0);
                assert(rq[m - 1] == x);
            }
            if rq.contains(x) {
                let k = choose|k: int| 0 <= k < rq.len() && rq[k] == x;
                assert(q[k + 1] == x);
                assert(listed_before(times, q[0], q[k + 1]));
                assert(p.contains(x));
                let m = choose|m: int| 0 <= m < p.len() && p[m] == x;
                assert(m != 0);
                assert(rp[m - 1] == x);
            }
        }
        assert forall|k: int, l: int| 0 <= k < l < rp.len() implies listed_before(times, #[trigger] rp[k], #[trigger] rp[l]) by {
            assert(rp[k] == p[k + 1] && rp[l] == p[l + 1]);
        }
        assert forall|k: int, l: int| 0 <= k < l < rq.len() implies listed_before(times, #[trigger] rq[k], #[trigger] rq[l]) by {
            assert(rq[k] == q[k + 1] && rq[l] == q[l + 1]);
        }
        lemma_listed_sorted_unique(times, rp, rq);
        assert(p =~= seq![p[0]] + rp);
        assert(q =~= seq![q[0]] + rq);
    }
}

/// The latest-first order is fixed by the instants: only one list of
/// positions meets `latest_first`, so `sort_builds_by_time` and
/// `list_builds` have exactly one possible result.
pub proof fn law_latest_first_unique(times: Seq<Option<Instant>>, p: Seq<int>, q: Seq<int>)
    requires
        latest_first(times, p),
        latest_first(times, q),
    ensures
        p == q,
{
    assert forall|i: int| p.contains(i) <==> q.contains(i) by {
        if p.contains(i) {
            let k = choose|k: int| 0 <= k < p.len() && p[k] == i;
            assert(0 <= p[k] < times.len() && times[p[k]] is Some);
        }
        if q.contains(i) {
            let k = choose|k: int| 0 <= k < q.len() && q[k] == i;
            assert(0 <= q[k] < times.len() && times[q[k]] is Some);
        }
    }
    assert forall|k: int, l: int| 0 <= k < l < p.len() implies listed_before(times, #[trigger] p[k], #[trigger] p[l]) by {}
    assert forall|k: int, l: int| 0 <= k < l < q.len() implies listed_before(times, #[trigger] q[k], #[trigger] q[l]) by {}
    lemma_listed_sorted_unique(times, p, q);
}

/// The first build of the latest-first order is the latest one, and there is
/// only one latest build.
pub proof fn law_first_listed_is_latest(times: Seq<Option<Instant>>, p: Seq<int>, j: int)
    requires
        latest_first(times, p),
        p.len() > 0,
        is_latest(times, j),
    ensures
        is_latest(times, p[0]),
        j == p[0],
{
    let i = p[0];
    assert forall|m: int| 0 <= m < times.len() && (#[trigger] times[m]) is Some implies !later(
        times[m]->0,
        times[i]->0,
    ) && (times[m]->0 == times[i]->0 ==> i <= m) by {
        assert(p.contains(m));
        let k = choose|k: int| 0 <= k < p.len() && p[k] == m;
        if k > 0 {
            assert(later(times[p[0]]->0, times[p[k]]->0) || (times[p[0]]->0 == times[p[k]]->0 && p[0] < p[k]));
        }
    }
    assert(is_latest(times, i));
    assert(!later(times[i]->0, times[j]->0) && (times[i]->0 == times[j]->0 ==> j <= i));
    assert(!later(times[j]->0, times[i]->0) && (times[j]->0 == times[i]->0 ==> i <= j));
}

/// The latest build by publication date (the first that `list_builds`
/// orders), or `None` where no build's date parses.
pub fn find_latest_build(builds: Vec<GameBuild>) -> (r: Option<GameBuild>)
    ensures
        match r {
            Some(b) => exists|i: int|
                #[trigger] is_latest(publish_times(builds_view(builds@)), i) && b@ == builds_view(
                    builds@,
                )[i],
            None => forall|i: int|
                0 <= i < builds@.len() ==> (#[trigger] publish_times(builds_view(builds@))[i]) is None,
        },
        r is Some && utc_date((r->0).date_published@) ==> forall|k: int|
            0 <= k < builds@.len() && utc_date(#[trigger] builds@[k].date_published@) ==> utc_seconds(
                (r->0).date_published@,
            ) >= utc_seconds(builds@[k].date_published@),
        r is None ==> forall|k: int| 0 <= k < builds@.len() ==> !utc_date(#[trigger] builds@[k].date_published@),
{
    let ghost bs = builds@;
    let ghost bv = builds_view(builds@);
    let ghost ts = publish_times(bv);
    let mut ordered = list_builds(builds);
    let ghost p = choose|p: Seq<int>| #[trigger] latest_first(ts, p) && builds_view(ordered@) == pick(bv, p);
    assert(latest_first(ts, p) && builds_view(ordered@) == pick(bv, p));
    assert(builds_view(ordered@).len() == ordered@.len());
    if ordered.len() == 0 {
        assert forall|i: int| 0 <= i < bv.len() implies (#[trigger] ts[i]) is None by {
            if ts[i] is Some {
                assert(p.contains(i));
            }
        }
        assert forall|k: int| 0 <= k < bs.len() implies !utc_date(#[trigger] bs[k].date_published@) by {
            if utc_date(bs[k].date_published@) {
                let m = choose|m: int| 0 <= m < ordered@.len() && (#[trigger] ordered@[m])@ == bs[k]@;
            }
        }
        None
    } else {
        let ghost before = ordered@;
        let first = ordered.remove(0);
        proof {
            let i = p[0];
            assert(first@ == builds_view(before)[0]);
            assert forall|j: int| 0 <= j < ts.len() && (#[trigger] ts[j]) is Some implies !later(
                ts[j]->0,
                ts[i]->0,
            ) && (ts[j]->0 == ts[i]->0 ==> i <= j) by {
                assert(p.contains(j));
                let k = choose|k: int| 0 <= k < p.len() && p[k] == j;
                if k > 0 {
                    assert(later(ts[p[0]]->0, ts[p[k]]->0) || (ts[p[0]]->0 == ts[p[k]]->0 && p[0] < p[k]));
                }
            }
            assert(is_latest(ts, i));
            if utc_date(first.date_published@) {
                assert forall|k: int|
                    0 <= k < bs.len() && utc_date(#[trigger] bs[k].date_published@) implies utc_seconds(
                        first.date_published@,
                    ) >= utc_seconds(bs[k].date_published@) by {
                    let m = choose|m: int| 0 <= m < before.len() && (#[trigger] before[m])@ == bs[k]@;
                    if m > 0 {
                        assert(utc_date(before[0].date_published@));
                        assert(utc_date(before[m].date_published@));
                        assert(utc_seconds(before[0].date_published@) >= utc_seconds(before[m].date_published@));
                    }
                }
            }
        }
        Some(first)
    }
}

/// The tags that mark a build in the build menu: "latest" for the first of
/// the list, "installed" for the version already installed.
pub open spec fn build_tags(latest: bool, installed: bool) -> Seq<char> {
    if latest && installed {
        "  (latest, installed)"@
    } else if latest {
        "  (latest)"@
    } else if installed {
        "  (installed)"@
    } else {
        Seq::empty()
    }
}

/// The menu line of the build at position `index` of the list: its version,
/// its publication date in brackets, then its tags.
pub fn build_option_label(index: usize, build: &GameBuild, current_version: Option<&str>) -> (r: String)
    ensures
        r@ == build.version_name@ + "  ("@ + build.date_published@ + ")"@ + build_tags(
            index == 0,
            match current_version {
                Some(v) => v@ == build.version_name@,
                None => false,
            },
        ),
{
    let installed = match current_version {
        Some(v) => str_eq(v, build.version_name.as_str()),
        None => false,
    };
    let mut r = build.version_name.clone();
    r.append("  (");
    r.append(build.date_published.as_str());
    r.append(")");
    if index == 0 && installed {
        r.append("  (latest, installed)");
    } else if index == 0 {
        r.append("  (latest)");
    } else if installed {
        r.append("  (installed)");
    }
    r
}


} // verus!
