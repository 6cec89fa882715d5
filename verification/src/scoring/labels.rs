//! Recall of the ground-truth labels within the submitted ones.

use vstd::prelude::*;
use crate::models::annotation::LabelModel;
use crate::scoring::geometry::{lemma_ratio_bounded, SCORE_UNIT};

verus! {

/// Whether some submitted annotation carries exactly this label.
pub open spec fn label_present(submitted: Seq<LabelModel>, label: Seq<char>) -> bool {
    exists|j: int| 0 <= j < submitted.len() && (#[trigger] submitted[j]).label == label
}

/// The ground-truth annotations whose label was submitted. One that occurs
/// twice in the truth is counted twice.
pub open spec fn matched_labels(
    submitted: Seq<LabelModel>,
    truth: Seq<LabelModel>,
) -> Seq<LabelModel> {
    truth.filter(|t: LabelModel| label_present(submitted, t.label))
}

/// The label score, in millionths, rounded down.
///
/// With no truth: 1.0 for an empty submission and 0 for any other. Else the
/// share of the ground-truth annotations whose label was submitted; what was
/// submitted beyond the truth does not count against it.
pub open spec fn label_score(submitted: Seq<LabelModel>, truth: Seq<LabelModel>) -> int {
    if truth.len() == 0 {
        if submitted.len() == 0 {
            SCORE_UNIT as int
        } else {
            0
        }
    } else {
        matched_labels(submitted, truth).len() * SCORE_UNIT / (truth.len() as int)
    }
}

/// The label score lies between 0 and `SCORE_UNIT`.
pub proof fn lemma_label_score_bounded(submitted: Seq<LabelModel>, truth: Seq<LabelModel>)
    ensures
        0 <= label_score(submitted, truth) <= SCORE_UNIT,
{
    if truth.len() > 0 {
        truth.lemma_filter_len(|t: LabelModel| label_present(submitted, t.label));
        lemma_ratio_bounded(
            matched_labels(submitted, truth).len() as int,
            truth.len() as int,
            SCORE_UNIT as int,
        );
    }
}

/// Where every ground-truth label was submitted, the label score is 1.0,
/// whatever else was submitted.
pub proof fn lemma_label_score_all_present(submitted: Seq<LabelModel>, truth: Seq<LabelModel>)
    requires
        truth.len() > 0,
        forall|i: int| 0 <= i < truth.len() ==> label_present(submitted, (#[trigger] truth[i]).label),
    ensures
        label_score(submitted, truth) == SCORE_UNIT,
{
    lemma_all_matched(submitted, truth);
    lemma_ratio_bounded(truth.len() as int, truth.len() as int, SCORE_UNIT as int);
}

/// A submission that repeats the truth has label score 1.0.
pub proof fn lemma_label_score_exact(labels: Seq<LabelModel>)
    ensures
        label_score(labels, labels) == SCORE_UNIT,
{
    if labels.len() > 0 {
        lemma_label_score_all_present(labels, labels);
    }
}

/// An empty submission has label score 0 against any truth that is not
/// empty.
pub proof fn lemma_label_score_empty_submission(truth: Seq<LabelModel>)
    requires
        truth.len() > 0,
    ensures
        label_score(Seq::empty(), truth) == 0,
{
    let submitted = Seq::<LabelModel>::empty();
    let present = |t: LabelModel| label_present(submitted, t.label);
    truth.lemma_all_neg_filter_empty(present);
    assert(matched_labels(submitted, truth).len() == 0);
}

/// What is submitted beyond the truth is not counted against a submission:
/// with more labels submitted, the score against a truth that is not empty is
/// no lower.
pub proof fn lemma_label_score_extras(
    submitted: Seq<LabelModel>,
    extra: Seq<LabelModel>,
    truth: Seq<LabelModel>,
)
    requires
        truth.len() > 0,
    ensures
        label_score(submitted + extra, truth) >= label_score(submitted, truth),
{
    let more = submitted + extra;
    assert forall|label: Seq<char>| label_present(submitted, label) implies label_present(
        more,
        label,
    ) by {
        let j = choose|j: int| 0 <= j < submitted.len() && (#[trigger] submitted[j]).label == label;
        assert(more[j] == submitted[j]);
    }
    lemma_matched_grows(submitted, more, truth);
    let fewer = matched_labels(submitted, truth).len() as int;
    let greater = matched_labels(more, truth).len() as int;
    let n = truth.len() as int;
    assert(fewer * SCORE_UNIT / n <= greater * SCORE_UNIT / n) by (nonlinear_arith)
        requires
            0 <= fewer <= greater,
            n > 0,
    ;
}

/// A submission that holds every label of another matches at least as many
/// ground-truth labels.
proof fn lemma_matched_grows(
    submitted: Seq<LabelModel>,
    more: Seq<LabelModel>,
    truth: Seq<LabelModel>,
)
    requires
        forall|label: Seq<char>|
            label_present(submitted, label) ==> #[trigger] label_present(more, label),
    ensures
        matched_labels(submitted, truth).len() <= matched_labels(more, truth).len(),
    decreases truth.len(),
{
    let in_submitted = |t: LabelModel| label_present(submitted, t.label);
    let in_more = |t: LabelModel| label_present(more, t.label);
    if truth.len() > 0 {
        let front = truth.drop_last();
        lemma_matched_grows(submitted, more, front);
        assert(truth =~= front.push(truth.last()));
        front.lemma_filter_len_push(in_submitted, truth.last());
        front.lemma_filter_len_push(in_more, truth.last());
        if in_submitted(truth.last()) {
            assert(label_present(more, truth.last().label));
        }
    }
}

/// Where every ground-truth label was submitted, all of them are matched.
proof fn lemma_all_matched(submitted: Seq<LabelModel>, truth: Seq<LabelModel>)
    requires
        forall|i: int| 0 <= i < truth.len() ==> label_present(submitted, (#[trigger] truth[i]).label),
    ensures
        matched_labels(submitted, truth).len() == truth.len(),
    decreases truth.len(),
{
    let present = |t: LabelModel| label_present(submitted, t.label);
    if truth.len() == 0 {
        truth.lemma_filter_len(present);
    } else {
        let front = truth.drop_last();
        assert forall|i: int| 0 <= i < front.len() implies label_present(
            submitted,
            (#[trigger] front[i]).label,
        ) by {
            assert(front[i] == truth[i]);
        }
        lemma_all_matched(submitted, front);
        assert(truth =~= front.push(truth.last()));
        front.lemma_filter_len_push(present, truth.last());
        assert(present(truth[truth.len() - 1]));
    }
}

} // verus!
