//! What a run of pages adds up to: a fetch or a scan as the pages it takes
//! in, one after the other, until one completes it.

use vstd::prelude::*;
use crate::client::{leaderboard_complete, newer_on_page, report_position, scan_complete};
use crate::models::{CrowdStream, DisclosedReport, HallOfFame, Hero};
use crate::ranking::ranked;

verus! {

/// The leaderboard that a fetch ends with when it holds `collected` and is
/// served `pages` in turn; `None` where the pages run out first. Pages
/// behind the one that completes the fetch are never asked for.
pub open spec fn fetch_pages(collected: Seq<Hero>, pages: Seq<HallOfFame>) -> Option<Seq<Hero>>
    decreases pages.len(),
{
    if pages.len() == 0 {
        None
    } else {
        let all = collected + pages[0].presented_heroes.heroes@;
        if leaderboard_complete(all.len(), pages[0]) {
            Some(ranked(all))
        } else {
            fetch_pages(all, pages.drop_first())
        }
    }
}

/// The reports that a scan ends with when it holds `collected` and is
/// served `pages` in turn; `None` where the pages run out first. Pages
/// behind the one that ends the scan are never asked for.
pub open spec fn scan_pages(
    collected: Seq<DisclosedReport>,
    pages: Seq<CrowdStream>,
    watermark: Seq<char>,
) -> Option<Seq<DisclosedReport>>
    decreases pages.len(),
{
    if pages.len() == 0 {
        None
    } else {
        let all = collected + newer_on_page(pages[0].results@, watermark);
        if scan_complete(all.len(), pages[0], watermark) {
            Some(all)
        } else {
            scan_pages(all, pages.drop_first(), watermark)
        }
    }
}

/// The reports of `pages`, one page after the other.
pub open spec fn all_reports(pages: Seq<CrowdStream>) -> Seq<DisclosedReport>
    decreases pages.len(),
{
    if pages.len() == 0 {
        seq![]
    } else {
        pages[0].results@ + all_reports(pages.drop_first())
    }
}

/// An empty leaderboard is complete with its first page, whatever would
/// follow: a page that presents nothing, or that reports a count of zero
/// and holds no entry, ends the fetch.
pub proof fn lemma_empty_leaderboard(pages: Seq<HallOfFame>)
    requires
        pages.len() > 0,
        pages[0].presented_heroes.total == 0 || (pages[0].pagination_meta.total_count == 0
            && pages[0].presented_heroes.heroes@.len() == 0),
    ensures
        fetch_pages(Seq::<Hero>::empty(), pages) == Some(
            ranked(pages[0].presented_heroes.heroes@),
        ),
{
    assert(Seq::<Hero>::empty() + pages[0].presented_heroes.heroes@
        =~= pages[0].presented_heroes.heroes@);
}

/// An empty stream is scanned with its first page, whatever would follow:
/// a page that reports a count of zero and holds no report ends the scan
/// with nothing.
pub proof fn lemma_empty_stream(pages: Seq<CrowdStream>, watermark: Seq<char>)
    requires
        pages.len() > 0,
        pages[0].pagination_meta.total_count == 0,
        pages[0].results@.len() == 0,
    ensures
        scan_pages(Seq::<DisclosedReport>::empty(), pages, watermark) == Some(
            Seq::<DisclosedReport>::empty(),
        ),
{
    assert(report_position(pages[0].results@, watermark).is_none());
    assert(Seq::<DisclosedReport>::empty() + newer_on_page(pages[0].results@, watermark)
        =~= Seq::<DisclosedReport>::empty());
}

/// Whether the scan that holds `collected` goes past each of the first
/// `upto` pages of `pages`: none of them holds the watermark or brings the
/// reports so far up to the count it reports.
pub open spec fn passes(
    collected: Seq<DisclosedReport>,
    pages: Seq<CrowdStream>,
    watermark: Seq<char>,
    upto: int,
) -> bool {
    forall|i: int|
        0 <= i < upto ==> {
            &&& report_position((#[trigger] pages[i]).results@, watermark).is_none()
            &&& pages[i].pagination_meta.total_count != collected.len() + all_reports(
                pages.take(i + 1),
            ).len()
        }
}

/// The reports of the pages up to and with page `k` are those up to it and
/// its own.
pub proof fn lemma_all_reports_step(pages: Seq<CrowdStream>, k: int)
    requires
        0 <= k < pages.len(),
    ensures
        all_reports(pages.take(k + 1)) == all_reports(pages.take(k)) + pages[k].results@,
    decreases k,
{
    let upto = pages.take(k + 1);
    if k == 0 {
        assert(upto.drop_first() =~= Seq::<CrowdStream>::empty());
        assert(pages.take(0) =~= Seq::<CrowdStream>::empty());
        assert(upto[0] == pages[0]);
        assert(all_reports(upto.drop_first()) =~= Seq::<DisclosedReport>::empty());
        assert(all_reports(upto) =~= pages[0].results@);
        assert(all_reports(pages.take(0)) + pages[0].results@ =~= pages[0].results@);
    } else {
        let rest = pages.drop_first();
        assert(upto.drop_first() =~= rest.take(k));
        assert(pages.take(k).drop_first() =~= rest.take(k - 1));
        lemma_all_reports_step(rest, k - 1);
        assert(upto[0] == pages[0] && pages.take(k)[0] == pages[0]);
        assert(rest[k - 1] == pages[k]);
        assert(all_reports(upto) =~= all_reports(pages.take(k)) + pages[k].results@);
    }
}

/// A scan that finds the watermark on page `k`, and is not ended before it,
/// yields every report of the pages before `k` and the reports of page `k`
/// that stand before the watermark, in that order. The watermark itself,
/// what stands behind it and all later pages stay out.
pub proof fn lemma_scan_stops_at_watermark(
    collected: Seq<DisclosedReport>,
    pages: Seq<CrowdStream>,
    watermark: Seq<char>,
    k: int,
)
    requires
        0 <= k < pages.len(),
        passes(collected, pages, watermark, k),
        report_position(pages[k].results@, watermark).is_some(),
    ensures
        scan_pages(collected, pages, watermark) == Some(
            collected + all_reports(pages.take(k)) + pages[k].results@.take(
                report_position(pages[k].results@, watermark).unwrap(),
            ),
        ),
    decreases k,
{
    let rest = pages.drop_first();
    if k == 0 {
        assert(pages.take(0) =~= Seq::<CrowdStream>::empty());
        assert(collected + all_reports(pages.take(0)) =~= collected);
    } else {
        let first = pages[0];
        assert(report_position(first.results@, watermark).is_none());
        let all = collected + first.results@;
        lemma_all_reports_step(pages, 0);
        assert(pages.take(0) =~= Seq::<CrowdStream>::empty());
        assert(all_reports(pages.take(1)) =~= first.results@);
        assert(!scan_complete(all.len(), first, watermark));
        assert(passes(all, rest, watermark, k - 1)) by {
            assert forall|i: int| 0 <= i < k - 1 implies {
                &&& report_position((#[trigger] rest[i]).results@, watermark).is_none()
                &&& rest[i].pagination_meta.total_count != all.len() + all_reports(
                    rest.take(i + 1),
                ).len()
            } by {
                assert(rest[i] == pages[i + 1]);
                assert(pages.take(i + 2).drop_first() =~= rest.take(i + 1));
                assert(pages.take(i + 2)[0] == first);
            }
        }
        lemma_scan_stops_at_watermark(all, rest, watermark, k - 1);
        assert(pages.take(k).drop_first() =~= rest.take(k - 1));
        assert(pages.take(k)[0] == first);
        assert(all + all_reports(rest.take(k - 1)) =~= collected + all_reports(pages.take(k)));
    }
}

/// A scan that never meets the watermark ends with the first page that
/// brings the reports so far up to the count it reports, and yields every
/// report up to and with that page.
pub proof fn lemma_scan_exhausts(
    collected: Seq<DisclosedReport>,
    pages: Seq<CrowdStream>,
    watermark: Seq<char>,
    k: int,
)
    requires
        0 <= k < pages.len(),
        passes(collected, pages, watermark, k),
        report_position(pages[k].results@, watermark).is_none(),
        pages[k].pagination_meta.total_count == collected.len() + all_reports(
            pages.take(k + 1),
        ).len(),
    ensures
        scan_pages(collected, pages, watermark) == Some(
            collected + all_reports(pages.take(k + 1)),
        ),
    decreases k,
{
    let rest = pages.drop_first();
    let first = pages[0];
    let all = collected + first.results@;
    lemma_all_reports_step(pages, 0);
    assert(pages.take(0) =~= Seq::<CrowdStream>::empty());
    assert(all_reports(pages.take(1)) =~= first.results@);
    if k == 0 {
    } else {
        assert(report_position(first.results@, watermark).is_none());
        assert(!scan_complete(all.len(), first, watermark));
        assert(passes(all, rest, watermark, k - 1)) by {
            assert forall|i: int| 0 <= i < k - 1 implies {
                &&& report_position((#[trigger] rest[i]).results@, watermark).is_none()
                &&& rest[i].pagination_meta.total_count != all.len() + all_reports(
                    rest.take(i + 1),
                ).len()
            } by {
                assert(rest[i] == pages[i + 1]);
                assert(pages.take(i + 2).drop_first() =~= rest.take(i + 1));
                assert(pages.take(i + 2)[0] == first);
            }
        }
        assert(rest[k - 1] == pages[k]);
        assert(pages.take(k + 1).drop_first() =~= rest.take(k));
        assert(pages.take(k + 1)[0] == first);
        lemma_scan_exhausts(all, rest, watermark, k - 1);
        assert(all + all_reports(rest.take(k)) =~= collected + all_reports(pages.take(k + 1)));
    }
}

/// The entries of `pages`, one page after the other.
pub open spec fn all_heroes(pages: Seq<HallOfFame>) -> Seq<Hero>
    decreases pages.len(),
{
    if pages.len() == 0 {
        seq![]
    } else {
        pages[0].presented_heroes.heroes@ + all_heroes(pages.drop_first())
    }
}

/// The entries of the pages up to and with page `k` are those up to it and
/// its own.
pub proof fn lemma_all_heroes_step(pages: Seq<HallOfFame>, k: int)
    requires
        0 <= k < pages.len(),
    ensures
        all_heroes(pages.take(k + 1)) == all_heroes(pages.take(k))
            + pages[k].presented_heroes.heroes@,
    decreases k,
{
    let upto = pages.take(k + 1);
    if k == 0 {
        assert(upto.drop_first() =~= Seq::<HallOfFame>::empty());
        assert(pages.take(0) =~= Seq::<HallOfFame>::empty());
        assert(upto[0] == pages[0]);
        assert(all_heroes(upto.drop_first()) =~= Seq::<Hero>::empty());
        assert(all_heroes(upto) =~= pages[0].presented_heroes.heroes@);
        assert(all_heroes(pages.take(0)) + pages[0].presented_heroes.heroes@
            =~= pages[0].presented_heroes.heroes@);
    } else {
        let rest = pages.drop_first();
        assert(upto.drop_first() =~= rest.take(k));
        assert(pages.take(k).drop_first() =~= rest.take(k - 1));
        lemma_all_heroes_step(rest, k - 1);
        assert(upto[0] == pages[0] && pages.take(k)[0] == pages[0]);
        assert(rest[k - 1] == pages[k]);
        assert(all_heroes(upto) =~= all_heroes(pages.take(k))
            + pages[k].presented_heroes.heroes@);
    }
}

/// A fetch ends with the first page that completes the leaderboard, and
/// yields the ranking of every entry up to and with that page. Nothing of a
/// later page comes in.
pub proof fn lemma_fetch_collects(collected: Seq<Hero>, pages: Seq<HallOfFame>, k: int)
    requires
        0 <= k < pages.len(),
        forall|i: int|
            0 <= i < k ==> !leaderboard_complete(
                (collected + all_heroes(pages.take(i + 1))).len(),
                #[trigger] pages[i],
            ),
        leaderboard_complete((collected + all_heroes(pages.take(k + 1))).len(), pages[k]),
    ensures
        fetch_pages(collected, pages) == Some(ranked(collected + all_heroes(pages.take(k + 1)))),
    decreases k,
{
    let rest = pages.drop_first();
    let first = pages[0];
    let all = collected + first.presented_heroes.heroes@;
    lemma_all_heroes_step(pages, 0);
    assert(pages.take(0) =~= Seq::<HallOfFame>::empty());
    assert(all_heroes(pages.take(1)) =~= first.presented_heroes.heroes@);
    if k == 0 {
    } else {
        assert(!leaderboard_complete(all.len(), first));
        assert forall|i: int| 0 <= i < k - 1 implies !leaderboard_complete(
            (all + all_heroes(rest.take(i + 1))).len(),
            #[trigger] rest[i],
        ) by {
            assert(rest[i] == pages[i + 1]);
            assert(pages.take(i + 2).drop_first() =~= rest.take(i + 1));
            assert(pages.take(i + 2)[0] == first);
            assert(all + all_heroes(rest.take(i + 1)) =~= collected + all_heroes(
                pages.take(i + 2),
            ));
        }
        assert(rest[k - 1] == pages[k]);
        assert(pages.take(k + 1).drop_first() =~= rest.take(k));
        assert(pages.take(k + 1)[0] == first);
        assert(all + all_heroes(rest.take(k)) =~= collected + all_heroes(pages.take(k + 1)));
        lemma_fetch_collects(all, rest, k - 1);
    }
}

} // verus!
