//! The image corpus and the assignment of images to outputs.

use vstd::prelude::*;

use crate::config::FitType;
use crate::output::Output;
use crate::priority::Priority;

verus! {

/// A scanned image: where it is and its natural size.
pub struct ImageFile {
    pub width: u32,
    pub height: u32,
    pub path: String,
}

/// The corpus is empty: there is nothing to show.
#[derive(PartialEq, Eq, Structural, Clone, Copy, Debug)]
pub enum PlanningError {
    EmptyCorpus,
}

impl ImageFile {
    pub fn new(width: u32, height: u32, path: String) -> (r: Self)
        ensures
            r.width == width,
            r.height == height,
            r.path == path,
    {
        ImageFile { width, height, path }
    }
}

/// The fit class of an image of `iw` x `ih` on an output of `ow` x `oh`:
/// a matching side is a best fit; otherwise a downsize by image area over
/// output area when the image is smaller, and an upsize by image area over
/// output area (the magnification, least first) when it is larger; equal
/// areas with no matching side, or an output without a mode yet, fit in no
/// class.
pub open spec fn fit_spec(iw: u32, ih: u32, ow: u32, oh: u32) -> Priority {
    let ia = iw * ih;
    let oa = ow * oh;
    if iw == ow || ih == oh {
        Priority::BestFit
    } else if ia < oa {
        Priority::Downsize { num: ia as u64, den: oa as u64 }
    } else if ia > oa && oa > 0 {
        Priority::Upsize { num: ia as u64, den: oa as u64 }
    } else {
        Priority::Any
    }
}

pub proof fn lemma_fit_wf(iw: u32, ih: u32, ow: u32, oh: u32)
    ensures
        fit_spec(iw, ih, ow, oh).wf(),
        (iw * ih) as u64 == iw * ih,
        (ow * oh) as u64 == ow * oh,
{
    assert(iw * ih <= u32::MAX * u32::MAX) by (nonlinear_arith)
        requires
            iw <= u32::MAX,
            ih <= u32::MAX,
    ;
    assert(ow * oh <= u32::MAX * u32::MAX) by (nonlinear_arith)
        requires
            ow <= u32::MAX,
            oh <= u32::MAX,
    ;
    assert(0 <= iw * ih) by (nonlinear_arith);
    assert(0 <= ow * oh) by (nonlinear_arith);
}

/// The fit class of `image_file` on `output`'s mode.
pub fn get_image_fit(image_file: &ImageFile, output: &Output) -> (r: Priority)
    ensures
        r == fit_spec(image_file.width, image_file.height, output.mode_width, output.mode_height),
        r.wf(),
{
    proof {
        lemma_fit_wf(image_file.width, image_file.height, output.mode_width, output.mode_height);
    }
    let ia = (image_file.width as u64) * (image_file.height as u64);
    let oa = (output.mode_width as u64) * (output.mode_height as u64);
    if image_file.width == output.mode_width || image_file.height == output.mode_height {
        Priority::BestFit
    } else if ia < oa {
        Priority::Downsize { num: ia, den: oa }
    } else if ia > oa && oa > 0 {
        Priority::Upsize { num: ia, den: oa }
    } else {
        Priority::Any
    }
}

/// `0, 1, ..., n - 1`.
pub open spec fn whole_corpus(n: nat) -> Seq<usize> {
    Seq::new(n, |i: int| i as usize)
}

/// The images dealt to output `j` of `m` when `n` images go round the
/// outputs in turn: `j, j + m, j + 2m, ...` below `n`.
pub open spec fn dealt_to(s: Seq<usize>, j: int, m: int, n: int) -> bool {
    &&& forall|t: int| 0 <= t < s.len() ==> #[trigger] s[t] == j + t * m
    &&& j + s.len() * m >= n
    &&& s.len() > 0 ==> j + (s.len() - 1) * m < n
}

/// Each output's rotation and cursor after a new plan; all else unchanged.
pub open spec fn replanned(old: Seq<Output>, new: Seq<Output>, rot: spec_fn(int) -> Seq<usize>) -> bool {
    &&& new.len() == old.len()
    &&& forall|j: int|
        0 <= j < new.len() ==> {
            &&& (#[trigger] new[j]).same_but_rotation(&old[j])
            &&& new[j].image_list@ == rot(j)
            &&& new[j].cursor == 0
        }
}

/// Every output gets the whole corpus, in order.
pub fn assign_everything_everyone(image_list: &Vec<ImageFile>, screens: &mut Vec<Output>)
    ensures
        replanned(old(screens)@, final(screens)@, |j: int| whole_corpus(image_list@.len())),
{
    let n = image_list.len();
    let mut all: Vec<usize> = Vec::new();
    for i in 0..n
        invariant
            all@ == whole_corpus(i as nat),
    {
        all.push(i);
    }
    let m = screens.len();
    for j in 0..m
        invariant
            m == old(screens)@.len(),
            all@ == whole_corpus(n as nat),
            n == image_list@.len(),
            replanned(
                old(screens)@.subrange(0, j as int),
                screens@.subrange(0, j as int),
                |j: int| whole_corpus(n as nat),
            ),
            screens@.len() == m,
            forall|k: int| j <= k < m ==> screens@[k] == old(screens)@[k],
    {
        let ghost before = screens@;
        screens[j].image_list = all.clone();
        screens[j].cursor = 0;
        proof {
            assert forall|k: int| 0 <= k < j + 1 implies {
                &&& (#[trigger] screens@[k]).same_but_rotation(&old(screens)@[k])
                &&& screens@[k].image_list@ == whole_corpus(n as nat)
                &&& screens@[k].cursor == 0
            } by {
                if k < j {
                    assert(before.subrange(0, j as int)[k] == before[k]);
                    assert(old(screens)@.subrange(0, j as int)[k] == old(screens)@[k]);
                }
            }
        }
    }
    assert(screens@.subrange(0, m as int) == screens@);
    assert(old(screens)@.subrange(0, m as int) == old(screens)@);
}

/// The images `j, j + m, j + 2m, ...` below `n`.
fn dealt_list(j: usize, m: usize, n: usize) -> (r: Vec<usize>)
    requires
        m > 0,
    ensures
        dealt_to(r@, j as int, m as int, n as int),
{
    let mut r: Vec<usize> = Vec::new();
    if j >= n {
        assert(j + r@.len() * m >= n);
        return r;
    }
    let mut x: usize = j;
    assert(r@.len() == 0);
    assert(0 * m == 0) by (nonlinear_arith);
    loop
        invariant_except_break
            x < n,
            x == j + r@.len() * m,
        invariant
            m > 0,
            forall|t: int| 0 <= t < r@.len() ==> #[trigger] r@[t] == j + t * m,
        ensures
            dealt_to(r@, j as int, m as int, n as int),
        decreases n - x,
    {
        proof {
            assert((r@.len() + 1) * m == r@.len() * m + m) by (nonlinear_arith);
        }
        r.push(x);
        assert(j + (r@.len() - 1) * m < n);
        if n - x <= m {
            break;
        }
        x = x + m;
    }
    r
}

/// Images go round the outputs in turn, image `i` to output `i % m`; with
/// fewer images than outputs every output gets the whole corpus.
pub fn assign_next_file(image_list: &Vec<ImageFile>, screens: &mut Vec<Output>)
    ensures
        image_list@.len() < old(screens)@.len() ==> replanned(
            old(screens)@,
            final(screens)@,
            |j: int| whole_corpus(image_list@.len()),
        ),
        image_list@.len() >= old(screens)@.len() ==> replanned(
            old(screens)@,
            final(screens)@,
            |j: int| final(screens)@[j].image_list@,
        ) && forall|j: int|
            0 <= j < final(screens)@.len() ==> dealt_to(
                #[trigger] final(screens)@[j].image_list@,
                j,
                old(screens)@.len() as int,
                image_list@.len() as int,
            ),
{
    let n = image_list.len();
    let m = screens.len();
    if n < m {
        assign_everything_everyone(image_list, screens);
        return;
    }
    for j in 0..m
        invariant
            m == old(screens)@.len(),
            n == image_list@.len(),
            screens@.len() == m,
            forall|k: int|
                0 <= k < j ==> {
                    &&& (#[trigger] screens@[k]).same_but_rotation(&old(screens)@[k])
                    &&& dealt_to(screens@[k].image_list@, k, m as int, n as int)
                    &&& screens@[k].cursor == 0
                },
            forall|k: int| j <= k < m ==> screens@[k] == old(screens)@[k],
    {
        screens[j].image_list = dealt_list(j, m, n);
        screens[j].cursor = 0;
    }
}

/// Dealing images in turn gives every output at least one image when there
/// are at least as many images as outputs, and any two outputs' counts differ
/// by at most one.
pub proof fn lemma_dealt_counts_balanced(
    s: Seq<usize>,
    t: Seq<usize>,
    j: int,
    k: int,
    m: int,
    n: int,
)
    requires
        0 <= j < k < m,
        m <= n,
        dealt_to(s, j, m, n),
        dealt_to(t, k, m, n),
    ensures
        s.len() > 0,
        t.len() > 0,
        t.len() <= s.len() <= t.len() + 1,
{
    let ls = s.len() as int;
    let lt = t.len() as int;
    assert(ls > 0) by {
        if ls == 0 {
            assert(j + 0 * m >= n);
        }
    }
    assert(lt > 0) by {
        if lt == 0 {
            assert(k + 0 * m >= n);
        }
    }
    assert(lt <= ls) by {
        if lt > ls {
            assert(ls * m <= (lt - 1) * m) by (nonlinear_arith)
                requires
                    ls <= lt - 1,
                    m > 0,
            ;
        }
    }
    assert(ls <= lt + 1) by {
        if ls > lt + 1 {
            assert((lt + 1) * m <= (ls - 1) * m) by (nonlinear_arith)
                requires
                    lt + 1 <= ls - 1,
                    m > 0,
            ;
            assert((lt + 1) * m == lt * m + m) by (nonlinear_arith);
        }
    }
}

/// Pair `(i, j)` with priority `p` is picked before pair `(k, l)` with
/// priority `q`: a better priority first, then the earlier image, then the
/// earlier output.
pub open spec fn pair_before(p: Priority, i: int, j: int, q: Priority, k: int, l: int) -> bool {
    p.better(q) || (p.same(q) && (i < k || (i == k && j < l)))
}

/// The fit class of image `i` on output `j`.
pub open spec fn prio_at(images: Seq<ImageFile>, outs: Seq<Output>, i: int, j: int) -> Priority {
    fit_spec(images[i].width, images[i].height, outs[j].mode_width, outs[j].mode_height)
}

/// Output `j` is where image `i` fits best (ties to the earlier output).
pub open spec fn is_best_output(images: Seq<ImageFile>, outs: Seq<Output>, i: int, j: int) -> bool {
    &&& 0 <= j < outs.len()
    &&& forall|l: int|
        0 <= l < outs.len() && l != j ==> pair_before(
            prio_at(images, outs, i, j),
            i,
            j,
            #[trigger] prio_at(images, outs, i, l),
            i,
            l,
        )
}

/// `s` holds exactly the images that fit output `j` best, in the order in
/// which the greedy pairing picks them.
pub open spec fn best_fit_list(images: Seq<ImageFile>, outs: Seq<Output>, j: int, s: Seq<usize>) -> bool {
    &&& forall|t: int|
        0 <= t < s.len() ==> #[trigger] s[t] < images.len() && is_best_output(
            images,
            outs,
            s[t] as int,
            j,
        )
    &&& forall|i: int|
        0 <= i < images.len() && #[trigger] is_best_output(images, outs, i, j) ==> s.contains(
            i as usize,
        )
    &&& forall|t1: int, t2: int|
        0 <= t1 < t2 < s.len() ==> pair_before(
            #[trigger] prio_at(images, outs, s[t1] as int, j),
            s[t1] as int,
            j,
            #[trigger] prio_at(images, outs, s[t2] as int, j),
            s[t2] as int,
            j,
        )
}

/// The best-fit rotation of output `j`: the images that fit it best, or the
/// whole corpus when there are none.
pub open spec fn best_fit_rotation(images: Seq<ImageFile>, outs: Seq<Output>, j: int, s: Seq<usize>) -> bool {
    if exists|i: int| 0 <= i < images.len() && #[trigger] is_best_output(images, outs, i, j) {
        best_fit_list(images, outs, j, s)
    } else {
        s == whole_corpus(images.len())
    }
}

proof fn lemma_pair_before_trans(
    p: Priority,
    i: int,
    j: int,
    q: Priority,
    k: int,
    l: int,
    r: Priority,
    a: int,
    b: int,
)
    requires
        p.wf(),
        q.wf(),
        r.wf(),
        pair_before(p, i, j, q, k, l),
        pair_before(q, k, l, r, a, b),
    ensures
        pair_before(p, i, j, r, a, b),
{
    if p.better(q) && q.better(r) {
        crate::priority::lemma_better_transitive(p, q, r);
    } else if p.better(q) {
        crate::priority::lemma_same_substitutes(q, r, p);
    } else if q.better(r) {
        crate::priority::lemma_same_substitutes(p, q, r);
    } else {
        crate::priority::lemma_same_substitutes(p, q, r);
    }
}

proof fn lemma_pair_before_asym(p: Priority, i: int, j: int, q: Priority, k: int, l: int)
    requires
        p.wf(),
        q.wf(),
        pair_before(p, i, j, q, k, l),
    ensures
        !pair_before(q, k, l, p, i, j),
{
    crate::priority::lemma_trichotomy(p, q);
    crate::priority::lemma_trichotomy(q, p);
    if p.same(q) {
        crate::priority::lemma_same_substitutes(p, q, p);
    }
}

/// How many entries are set.
pub open spec fn count_true(s: Seq<bool>) -> nat
    decreases s.len(),
{
    if s.len() == 0 {
        0
    } else {
        count_true(s.drop_last()) + if s.last() {
            1nat
        } else {
            0nat
        }
    }
}

proof fn lemma_count_set(s: Seq<bool>, i: int)
    requires
        0 <= i < s.len(),
        !s[i],
    ensures
        count_true(s.update(i, true)) == count_true(s) + 1,
    decreases s.len(),
{
    let u = s.update(i, true);
    if i == s.len() - 1 {
        assert(u.drop_last() == s.drop_last());
    } else {
        lemma_count_set(s.drop_last(), i);
        assert(u.drop_last() == s.drop_last().update(i, true));
    }
}

proof fn lemma_count_unset(s: Seq<bool>, i: int)
    requires
        0 <= i < s.len(),
        !s[i],
    ensures
        count_true(s) < s.len(),
    decreases s.len(),
{
    lemma_count_le(s.drop_last());
    if i < s.len() - 1 {
        lemma_count_unset(s.drop_last(), i);
    }
}

proof fn lemma_count_le(s: Seq<bool>)
    ensures
        count_true(s) <= s.len(),
    decreases s.len(),
{
    if s.len() > 0 {
        lemma_count_le(s.drop_last());
    }
}

proof fn lemma_count_untaken(s: Seq<bool>)
    requires
        count_true(s) < s.len(),
    ensures
        exists|i: int| 0 <= i < s.len() && !s[i],
    decreases s.len(),
{
    if s.last() {
        lemma_count_untaken(s.drop_last());
        let i = choose|i: int| 0 <= i < s.drop_last().len() && !s.drop_last()[i];
        assert(!s[i]);
    } else {
        assert(!s[s.len() - 1]);
    }
}

/// The not yet taken pair that the greedy pairing picks next: the best
/// priority, then the earliest image, then the earliest output.
fn best_pair(image_list: &Vec<ImageFile>, screens: &Vec<Output>, taken: &Vec<bool>) -> (r: Option<
    (usize, usize),
>)
    requires
        taken@.len() == image_list@.len(),
        screens@.len() > 0,
    ensures
        r is None ==> forall|k: int| 0 <= k < taken@.len() ==> #[trigger] taken@[k],
        r matches Some((i, j)) ==> {
            &&& i < image_list@.len()
            &&& j < screens@.len()
            &&& !taken@[i as int]
            &&& forall|k: int, l: int|
                0 <= k < image_list@.len() && 0 <= l < screens@.len() && !taken@[k] && (k, l) != (
                i as int,
                j as int,
                ) ==> pair_before(
                    prio_at(image_list@, screens@, i as int, j as int),
                    i as int,
                    j as int,
                    #[trigger] prio_at(image_list@, screens@, k, l),
                    k,
                    l,
                )
        },
{
    let ghost imgs = image_list@;
    let ghost outs = screens@;
    let n = image_list.len();
    let m = screens.len();
    let mut best: Option<(usize, usize, Priority)> = None;
    for i in 0..n
        invariant
            n == imgs.len(),
            m == outs.len(),
            m > 0,
            imgs == image_list@,
            outs == screens@,
            taken@.len() == n,
            best is None ==> forall|k: int| 0 <= k < i ==> #[trigger] taken@[k],
            best matches Some((bi, bj, bp)) ==> {
                &&& bi < i
                &&& bj < m
                &&& !taken@[bi as int]
                &&& bp == prio_at(imgs, outs, bi as int, bj as int)
                &&& forall|k: int, l: int|
                    0 <= k < i && 0 <= l < m && !taken@[k] && (k, l) != (bi as int, bj as int)
                        ==> pair_before(
                        bp,
                        bi as int,
                        bj as int,
                        #[trigger] prio_at(imgs, outs, k, l),
                        k,
                        l,
                    )
            },
    {
        if !taken[i] {
            for j in 0..m
                invariant
                    n == imgs.len(),
                    m == outs.len(),
                    m > 0,
                    i < n,
                    !taken@[i as int],
                    imgs == image_list@,
                    outs == screens@,
                    taken@.len() == n,
                    best is None ==> j == 0 && forall|k: int| 0 <= k < i ==> #[trigger] taken@[k],
                    best matches Some((bi, bj, bp)) ==> {
                        &&& bi <= i
                        &&& bj < m
                        &&& (bi == i ==> bj < j)
                        &&& !taken@[bi as int]
                        &&& bp == prio_at(imgs, outs, bi as int, bj as int)
                        &&& forall|k: int, l: int|
                            0 <= l < m && !taken@[k] && (k, l) != (bi as int, bj as int) && (0
                                <= k < i || (k == i && l < j)) ==> pair_before(
                                bp,
                                bi as int,
                                bj as int,
                                #[trigger] prio_at(imgs, outs, k, l),
                                k,
                                l,
                            )
                    },
            {
                let p = get_image_fit(&image_list[i], &screens[j]);
                proof {
                    lemma_fit_wf(imgs[i as int].width, imgs[i as int].height, outs[j as int].mode_width, outs[j as int].mode_height);
                }
                match best {
                    None => {
                        best = Some((i, j, p));
                    },
                    Some((bi, bj, bp)) => {
                        let ghost old_best = (bi, bj, bp);
                        proof {
                            lemma_fit_wf(imgs[bi as int].width, imgs[bi as int].height, outs[bj as int].mode_width, outs[bj as int].mode_height);
                        }
                        if matches!(p.cmp(&bp), std::cmp::Ordering::Less) {
                            best = Some((i, j, p));
                            proof {
                                assert forall|k: int, l: int|
                                    0 <= l < m && !taken@[k] && (k, l) != (i as int, j as int) && (0
                                        <= k < i || (k == i && l < j + 1)) implies pair_before(
                                    p,
                                    i as int,
                                    j as int,
                                    #[trigger] prio_at(imgs, outs, k, l),
                                    k,
                                    l,
                                ) by {
                                    lemma_fit_wf(imgs[k].width, imgs[k].height, outs[l].mode_width, outs[l].mode_height);
                                    if (k, l) != (bi as int, bj as int) {
                                        lemma_pair_before_trans(
                                            p,
                                            i as int,
                                            j as int,
                                            bp,
                                            bi as int,
                                            bj as int,
                                            prio_at(imgs, outs, k, l),
                                            k,
                                            l,
                                        );
                                    }
                                }
                            }
                        } else {
                            proof {
                                crate::priority::lemma_trichotomy(p, bp);
                                crate::priority::lemma_trichotomy(bp, p);
                                if p.same(bp) {
                                    crate::priority::lemma_same_substitutes(p, bp, p);
                                }
                                assert(pair_before(bp, bi as int, bj as int, p, i as int, j as int));
                            }
                        }
                    },
                }
            }
        }
    }
    match best {
        None => None,
        Some((bi, bj, _)) => Some((bi, bj)),
    }
}

/// Greedy global pairing: over all pairs of a not yet assigned image and an
/// output, the best-ranked pair is assigned, until every image is.  An
/// output left without images gets the whole corpus; with fewer images
/// than outputs every output gets the whole corpus.
pub fn assign_best_fit(image_list: &Vec<ImageFile>, screens: &mut Vec<Output>)
    ensures
        image_list@.len() < old(screens)@.len() ==> replanned(
            old(screens)@,
            final(screens)@,
            |j: int| whole_corpus(image_list@.len()),
        ),
        image_list@.len() >= old(screens)@.len() ==> replanned(
            old(screens)@,
            final(screens)@,
            |j: int| final(screens)@[j].image_list@,
        ) && forall|j: int|
            0 <= j < final(screens)@.len() ==> best_fit_rotation(
                image_list@,
                old(screens)@,
                j,
                #[trigger] final(screens)@[j].image_list@,
            ),
{
    let n = image_list.len();
    let m = screens.len();
    if n < m {
        assign_everything_everyone(image_list, screens);
        return;
    }
    if m == 0 {
        return;
    }
    let ghost imgs = image_list@;
    let ghost outs = screens@;
    let mut taken: Vec<bool> = Vec::new();
    for i in 0..n
        invariant
            taken@.len() == i,
            forall|k: int| 0 <= k < i ==> !#[trigger] taken@[k],
    {
        taken.push(false);
    }
    proof {
        assert(count_true(taken@) == 0) by {
            lemma_count_zero(taken@);
        }
    }
    let mut lists: Vec<Vec<usize>> = Vec::new();
    for j in 0..m
        invariant
            lists@.len() == j,
            forall|l: int| 0 <= l < j ==> (#[trigger] lists@[l])@.len() == 0,
    {
        lists.push(Vec::new());
    }
    for round in 0..n
        invariant
            n == imgs.len(),
            m == outs.len(),
            m > 0,
            imgs == image_list@,
            outs == screens@,
            taken@.len() == n,
            lists@.len() == m,
            count_true(taken@) == round,
            forall|j: int, t: int|
                0 <= j < m && 0 <= t < lists@[j]@.len() ==> {
                    let i = #[trigger] lists@[j]@[t];
                    &&& i < n
                    &&& taken@[i as int]
                    &&& is_best_output(imgs, outs, i as int, j)
                },
            forall|i: int, j: int|
                0 <= i < n && 0 <= j < m && taken@[i] && #[trigger] is_best_output(
                    imgs,
                    outs,
                    i,
                    j,
                ) ==> lists@[j]@.contains(i as usize),
            forall|j: int, t1: int, t2: int|
                0 <= j < m && 0 <= t1 < t2 < lists@[j]@.len() ==> pair_before(
                    #[trigger] prio_at(imgs, outs, lists@[j]@[t1] as int, j),
                    lists@[j]@[t1] as int,
                    j,
                    #[trigger] prio_at(imgs, outs, lists@[j]@[t2] as int, j),
                    lists@[j]@[t2] as int,
                    j,
                ),
            forall|j: int, t: int, b: int, l: int|
                0 <= j < m && 0 <= t < lists@[j]@.len() && 0 <= b < n && 0 <= l < m
                    && !taken@[b] ==> pair_before(
                    #[trigger] prio_at(imgs, outs, lists@[j]@[t] as int, j),
                    lists@[j]@[t] as int,
                    j,
                    #[trigger] prio_at(imgs, outs, b, l),
                    b,
                    l,
                ),
    {
        let pick = best_pair(image_list, screens, &taken);
        proof {
            if pick is None {
                lemma_count_untaken(taken@);
            }
        }
        let (bi, bj) = pick.unwrap();
        let ghost old_taken = taken@;
        let ghost old_lists = lists@;
        proof {
            lemma_count_set(taken@, bi as int);
            lemma_fit_wf(imgs[bi as int].width, imgs[bi as int].height, outs[bj as int].mode_width, outs[bj as int].mode_height);
            // the pick fits its output best
            assert forall|l: int| 0 <= l < m && l != bj implies pair_before(
                prio_at(imgs, outs, bi as int, bj as int),
                bi as int,
                bj as int,
                #[trigger] prio_at(imgs, outs, bi as int, l),
                bi as int,
                l,
            ) by {}
            assert(is_best_output(imgs, outs, bi as int, bj as int));
        }
        taken.set(bi, true);
        lists[bj].push(bi);
        proof {
            let bp = prio_at(imgs, outs, bi as int, bj as int);
            assert forall|j: int, t: int|
                0 <= j < m && 0 <= t < lists@[j]@.len() implies {
                let i = #[trigger] lists@[j]@[t];
                &&& i < n
                &&& taken@[i as int]
                &&& is_best_output(imgs, outs, i as int, j)
            } by {
                if j != bj || t < old_lists[j]@.len() {
                    assert(lists@[j]@[t] == old_lists[j]@[t]);
                }
            }
            assert forall|i: int, j: int|
                0 <= i < n && 0 <= j < m && taken@[i] && #[trigger] is_best_output(
                    imgs,
                    outs,
                    i,
                    j,
                ) implies lists@[j]@.contains(i as usize) by {
                if i == bi {
                    if j != bj {
                        lemma_fit_wf(imgs[i].width, imgs[i].height, outs[j].mode_width, outs[j].mode_height);
                        lemma_pair_before_asym(
                            bp,
                            bi as int,
                            bj as int,
                            prio_at(imgs, outs, bi as int, j),
                            bi as int,
                            j,
                        );
                    }
                    assert(lists@[j]@[lists@[j]@.len() - 1] == bi);
                } else {
                    assert(old_taken[i]);
                    let t = choose|t: int| 0 <= t < old_lists[j]@.len() && old_lists[j]@[t] == i as usize;
                    assert(lists@[j]@[t] == i as usize);
                }
            }
            assert forall|j: int, t1: int, t2: int|
                0 <= j < m && 0 <= t1 < t2 < lists@[j]@.len() implies pair_before(
                    #[trigger] prio_at(imgs, outs, lists@[j]@[t1] as int, j),
                    lists@[j]@[t1] as int,
                    j,
                    #[trigger] prio_at(imgs, outs, lists@[j]@[t2] as int, j),
                    lists@[j]@[t2] as int,
                    j,
                ) by {
                assert(lists@[j]@[t1] == old_lists[j]@[t1]);
                if j != bj || t2 < old_lists[j]@.len() {
                    assert(lists@[j]@[t2] == old_lists[j]@[t2]);
                } else {
                    assert(lists@[j]@[t2] == bi);
                    assert(!old_taken[bi as int]);
                }
            }
            assert forall|j: int, t: int, b: int, l: int|
                0 <= j < m && 0 <= t < lists@[j]@.len() && 0 <= b < n && 0 <= l < m
                    && !taken@[b] implies pair_before(
                    #[trigger] prio_at(imgs, outs, lists@[j]@[t] as int, j),
                    lists@[j]@[t] as int,
                    j,
                    #[trigger] prio_at(imgs, outs, b, l),
                    b,
                    l,
                ) by {
                assert(b != bi);
                assert(old_taken[b] == taken@[b]);
                if j != bj || t < old_lists[j]@.len() {
                    assert(lists@[j]@[t] == old_lists[j]@[t]);
                } else {
                    assert(lists@[j]@[t] == bi);
                }
            }
        }
    }
    proof {
        assert forall|k: int| 0 <= k < n implies #[trigger] taken@[k] by {
            if !taken@[k] {
                lemma_count_unset(taken@, k);
            }
        }
    }
    for j in 0..m
        invariant
            n == imgs.len(),
            m == outs.len(),
            imgs == image_list@,
            outs == old(screens)@,
            taken@.len() == n,
            lists@.len() == m,
            forall|k: int| 0 <= k < n ==> #[trigger] taken@[k],
            forall|j: int, t: int|
                0 <= j < m && 0 <= t < lists@[j]@.len() ==> {
                    let i = #[trigger] lists@[j]@[t];
                    &&& i < n
                    &&& is_best_output(imgs, outs, i as int, j)
                },
            forall|i: int, j: int|
                0 <= i < n && 0 <= j < m && taken@[i] && #[trigger] is_best_output(
                    imgs,
                    outs,
                    i,
                    j,
                ) ==> lists@[j]@.contains(i as usize),
            forall|j: int, t1: int, t2: int|
                0 <= j < m && 0 <= t1 < t2 < lists@[j]@.len() ==> pair_before(
                    #[trigger] prio_at(imgs, outs, lists@[j]@[t1] as int, j),
                    lists@[j]@[t1] as int,
                    j,
                    #[trigger] prio_at(imgs, outs, lists@[j]@[t2] as int, j),
                    lists@[j]@[t2] as int,
                    j,
                ),
            screens@.len() == m,
            forall|k: int|
                0 <= k < j ==> {
                    &&& (#[trigger] screens@[k]).same_but_rotation(&outs[k])
                    &&& best_fit_rotation(imgs, outs, k, screens@[k].image_list@)
                    &&& screens@[k].cursor == 0
                },
            forall|k: int| j <= k < m ==> screens@[k] == outs[k],
    {
        if lists[j].len() == 0 {
            let mut all: Vec<usize> = Vec::new();
            for i in 0..n
                invariant
                    all@ == whole_corpus(i as nat),
            {
                all.push(i);
            }
            proof {
                if exists|i: int| 0 <= i < n && #[trigger] is_best_output(imgs, outs, i, j as int) {
                    let i = choose|i: int| 0 <= i < n && #[trigger] is_best_output(imgs, outs, i, j as int);
                    assert(lists@[j as int]@.contains(i as usize));
                }
            }
            screens[j].image_list = all;
        } else {
            let l = lists[j].clone();
            proof {
                assert(is_best_output(imgs, outs, l@[0] as int, j as int));
            }
            screens[j].image_list = l;
        }
        screens[j].cursor = 0;
    }
}

proof fn lemma_count_zero(s: Seq<bool>)
    requires
        forall|k: int| 0 <= k < s.len() ==> !#[trigger] s[k],
    ensures
        count_true(s) == 0,
    decreases s.len(),
{
    if s.len() > 0 {
        lemma_count_zero(s.drop_last());
    }
}

proof fn lemma_dealt_nonempty(s: Seq<usize>, j: int, m: int, n: int)
    requires
        0 <= j < m,
        m <= n,
        dealt_to(s, j, m, n),
    ensures
        s.len() > 0,
{
    if s.len() == 0 {
        assert(j + 0 * m >= n);
    }
}

/// `new` is `old` with every output's rotation planned from a non-empty
/// corpus `images` under policy `fit`: each rotation is non-empty; with fewer
/// images than outputs each is the whole corpus; otherwise each is what the
/// policy deals to that output.  Nothing but rotations and cursors changes.
pub open spec fn planned(images: Seq<ImageFile>, fit: FitType, old: Seq<Output>, new: Seq<Output>) -> bool {
    &&& forall|j: int| 0 <= j < new.len() ==> (#[trigger] new[j]).image_list@.len() > 0
    &&& images.len() < old.len() ==> replanned(old, new, |j: int| whole_corpus(images.len()))
    &&& images.len() >= old.len() ==> replanned(old, new, |j: int| new[j].image_list@)
    &&& images.len() >= old.len() && fit == FitType::NextFile ==> forall|j: int|
        0 <= j < new.len() ==> dealt_to(
            #[trigger] new[j].image_list@,
            j,
            old.len() as int,
            images.len() as int,
        )
    &&& images.len() >= old.len() && fit == FitType::BestFit ==> forall|j: int|
        0 <= j < new.len() ==> best_fit_rotation(images, old, j, #[trigger] new[j].image_list@)
}

/// The rotation of every output for `fit`.  Fails, changing nothing, when
/// the corpus is empty; otherwise every output ends with a non-empty rotation.
pub fn plan_rotations(image_list: &Vec<ImageFile>, screens: &mut Vec<Output>, fit: FitType) -> (r:
    Result<(), PlanningError>)
    ensures
        image_list@.len() == 0 <==> r is Err,
        r is Err ==> final(screens)@ == old(screens)@,
        r is Ok ==> planned(image_list@, fit, old(screens)@, final(screens)@),
{
    if image_list.len() == 0 {
        return Err(PlanningError::EmptyCorpus);
    }
    let ghost n = image_list@.len();
    let ghost m = screens@.len();
    match fit {
        FitType::NextFile => {
            assign_next_file(image_list, screens);
            proof {
                assert forall|j: int| 0 <= j < screens@.len() implies (
                #[trigger] screens@[j]).image_list@.len() > 0 by {
                    if n >= m {
                        lemma_dealt_nonempty(screens@[j].image_list@, j, m as int, n as int);
                    } else {
                        assert(screens@[j].image_list@ == whole_corpus(n));
                    }
                }
            }
        },
        FitType::BestFit => {
            let ghost outs = screens@;
            assign_best_fit(image_list, screens);
            proof {
                assert forall|j: int| 0 <= j < screens@.len() implies (
                #[trigger] screens@[j]).image_list@.len() > 0 by {
                    if n >= m {
                        assert(best_fit_rotation(image_list@, outs, j, screens@[j].image_list@));
                        if exists|i: int|
                            0 <= i < n && #[trigger] is_best_output(image_list@, outs, i, j) {
                            let i = choose|i: int|
                                0 <= i < n && #[trigger] is_best_output(image_list@, outs, i, j);
                            assert(screens@[j].image_list@.contains(i as usize));
                        } else {
                            assert(screens@[j].image_list@ == whole_corpus(n));
                        }
                    } else {
                        assert(screens@[j].image_list@ == whole_corpus(n));
                    }
                }
            }
        },
    }
    Ok(())
}

/// Best-fit rotations depend on the outputs' modes alone.
proof fn lemma_rotation_by_modes(
    imgs: Seq<ImageFile>,
    a: Seq<Output>,
    b: Seq<Output>,
    j: int,
    s: Seq<usize>,
)
    requires
        a.len() == b.len(),
        forall|k: int|
            0 <= k < a.len() ==> #[trigger] a[k].mode_width == b[k].mode_width && a[k].mode_height
                == b[k].mode_height,
        best_fit_rotation(imgs, a, j, s),
        0 <= j < a.len(),
    ensures
        best_fit_rotation(imgs, b, j, s),
{
    assert forall|i: int, l: int|
        0 <= i < imgs.len() && 0 <= l < a.len() implies #[trigger] prio_at(imgs, a, i, l)
        == prio_at(imgs, b, i, l) by {
        assert(a[l].mode_width == b[l].mode_width);
    }
    assert forall|i: int| 0 <= i < imgs.len() implies #[trigger] is_best_output(imgs, a, i, j)
        == is_best_output(imgs, b, i, j) by {
        assert(prio_at(imgs, a, i, j) == prio_at(imgs, b, i, j));
        if is_best_output(imgs, a, i, j) {
            assert forall|l: int| 0 <= l < b.len() && l != j implies pair_before(
                prio_at(imgs, b, i, j),
                i,
                j,
                #[trigger] prio_at(imgs, b, i, l),
                i,
                l,
            ) by {
                assert(prio_at(imgs, a, i, l) == prio_at(imgs, b, i, l));
            }
        }
        if is_best_output(imgs, b, i, j) {
            assert forall|l: int| 0 <= l < a.len() && l != j implies pair_before(
                prio_at(imgs, a, i, j),
                i,
                j,
                #[trigger] prio_at(imgs, a, i, l),
                i,
                l,
            ) by {
                assert(prio_at(imgs, a, i, l) == prio_at(imgs, b, i, l));
            }
        }
    }
    if exists|i: int| 0 <= i < imgs.len() && #[trigger] is_best_output(imgs, a, i, j) {
        let i = choose|i: int| 0 <= i < imgs.len() && #[trigger] is_best_output(imgs, a, i, j);
        assert(is_best_output(imgs, b, i, j));
        assert forall|t: int| 0 <= t < s.len() implies #[trigger] s[t] < imgs.len()
            && is_best_output(imgs, b, s[t] as int, j) by {
            assert(is_best_output(imgs, a, s[t] as int, j));
        }
        assert forall|k: int|
            0 <= k < imgs.len() && #[trigger] is_best_output(imgs, b, k, j) implies s.contains(
            k as usize,
        ) by {
            assert(is_best_output(imgs, a, k, j));
        }
        assert forall|t1: int, t2: int| 0 <= t1 < t2 < s.len() implies pair_before(
            #[trigger] prio_at(imgs, b, s[t1] as int, j),
            s[t1] as int,
            j,
            #[trigger] prio_at(imgs, b, s[t2] as int, j),
            s[t2] as int,
            j,
        ) by {
            assert(s[t1] < imgs.len() && s[t2] < imgs.len());
            assert(prio_at(imgs, a, s[t1] as int, j) == prio_at(imgs, b, s[t1] as int, j));
            assert(prio_at(imgs, a, s[t2] as int, j) == prio_at(imgs, b, s[t2] as int, j));
        }
    } else {
        if exists|i: int| 0 <= i < imgs.len() && #[trigger] is_best_output(imgs, b, i, j) {
            let i = choose|i: int| 0 <= i < imgs.len() && #[trigger] is_best_output(imgs, b, i, j);
            assert(is_best_output(imgs, a, i, j));
        }
    }
}

/// An output of `width` x `height` with nothing else set.
fn output_with_mode(width: u32, height: u32) -> (r: Output)
    ensures
        r.mode_width == width,
        r.mode_height == height,
        r.image_list@.len() == 0,
        r.wf(),
{
    let mut output = Output::new();
    output.mode_height = height;
    output.mode_width = width;
    output
}

/// Round-robin over a portrait 1080x1920 and a landscape 1920x1080 output.
pub fn test_next_file(image_list: &Vec<ImageFile>) -> (r: Vec<Output>)
    ensures
        r@.len() == 2,
        r@[0].mode_width == 1080 && r@[0].mode_height == 1920,
        r@[1].mode_width == 1920 && r@[1].mode_height == 1080,
        image_list@.len() < 2 ==> forall|j: int|
            0 <= j < 2 ==> (#[trigger] r@[j]).image_list@ == whole_corpus(image_list@.len()),
        image_list@.len() >= 2 ==> forall|j: int|
            0 <= j < 2 ==> dealt_to(#[trigger] r@[j].image_list@, j, 2, image_list@.len() as int),
{
    let mut screens: Vec<Output> = Vec::new();
    screens.push(output_with_mode(1080, 1920));
    screens.push(output_with_mode(1920, 1080));
    assign_next_file(image_list, &mut screens);
    screens
}

/// Best fit over a 1920x1080 and a 3440x1440 output.
pub fn test_best_fit(image_list: &Vec<ImageFile>) -> (r: Vec<Output>)
    ensures
        r@.len() == 2,
        r@[0].mode_width == 1920 && r@[0].mode_height == 1080,
        r@[1].mode_width == 3440 && r@[1].mode_height == 1440,
        image_list@.len() < 2 ==> forall|j: int|
            0 <= j < 2 ==> (#[trigger] r@[j]).image_list@ == whole_corpus(image_list@.len()),
        image_list@.len() >= 2 ==> forall|j: int|
            0 <= j < 2 ==> best_fit_rotation(image_list@, r@, j, #[trigger] r@[j].image_list@),
{
    let mut screens: Vec<Output> = Vec::new();
    screens.push(output_with_mode(1920, 1080));
    screens.push(output_with_mode(3440, 1440));
    let ghost outs = screens@;
    assign_best_fit(image_list, &mut screens);
    proof {
        if image_list@.len() >= 2 {
        assert forall|j: int| 0 <= j < 2 implies best_fit_rotation(
            image_list@,
            screens@,
            j,
            #[trigger] screens@[j].image_list@,
        ) by {
            lemma_rotation_by_modes(image_list@, outs, screens@, j, screens@[j].image_list@);
        }
        }
    }
    screens
}

} // verus!
