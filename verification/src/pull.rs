//! Bringing an image to the node.

use vstd::prelude::*;

use crate::image;
use crate::image::normalize_image_name;
use crate::runtime::ContainerRuntime;
use crate::text;

verus! {

/// What the pull policy makes of an image.
#[derive(Debug, Clone, Copy, PartialEq, Eq, Structural)]
pub enum ImageAction {
    Pull,
    UseLocal,
    /// It is not there and must not be pulled.
    ErrImageNeverPull,
}

/// What is being done to bring an image to the node.
#[derive(Debug, Clone, PartialEq)]
pub enum ImagePhase {
    /// The engine is asked for the image, by the name that was given and then
    /// by its full name.
    Look,
    /// The pull policy decides; the image is there or not.
    Decide(bool),
    /// The image is pulled by its full name.
    PullFull,
    /// The image is pulled by the name that was given.
    PullGiven,
    /// It was there.
    Local,
    /// It was pulled.
    Pulled,
    /// It is not there and must not be pulled.
    NeverPulled,
    /// It could not be pulled.
    Failed(String),
}

/// What came of a step.
#[derive(Debug, PartialEq)]
pub enum ImageEvent {
    /// Whether the engine has the image.
    Looked(bool),
    /// What the pull policy says.
    Decided(ImageAction),
    /// The image was pulled, or an error.
    Pulled(Option<String>),
}

/// What is reported of an image.
#[derive(Debug, Clone, PartialEq)]
pub enum ImageReport {
    Pulling(String),
    Pulled(String),
    FailedToPull(String),
}

/// One step, and what is reported before it is taken.
#[derive(Debug, Clone, PartialEq)]
pub struct ImageStep {
    pub phase: ImagePhase,
    pub report: Option<ImageReport>,
}

/// What is being done to bring an image to the node, with errors as texts.
#[verifier::ext_equal]
pub enum ImagePhaseView {
    Look,
    Decide(bool),
    PullFull,
    PullGiven,
    Local,
    Pulled,
    NeverPulled,
    Failed(Seq<char>),
}

impl View for ImagePhase {
    type V = ImagePhaseView;

    open spec fn view(&self) -> ImagePhaseView {
        match *self {
            ImagePhase::Look => ImagePhaseView::Look,
            ImagePhase::Decide(b) => ImagePhaseView::Decide(b),
            ImagePhase::PullFull => ImagePhaseView::PullFull,
            ImagePhase::PullGiven => ImagePhaseView::PullGiven,
            ImagePhase::Local => ImagePhaseView::Local,
            ImagePhase::Pulled => ImagePhaseView::Pulled,
            ImagePhase::NeverPulled => ImagePhaseView::NeverPulled,
            ImagePhase::Failed(e) => ImagePhaseView::Failed(e@),
        }
    }
}

/// What is reported of an image, as texts.
#[verifier::ext_equal]
pub enum ImageReportView {
    Pulling(Seq<char>),
    Pulled(Seq<char>),
    FailedToPull(Seq<char>),
}

impl View for ImageReport {
    type V = ImageReportView;

    open spec fn view(&self) -> ImageReportView {
        match *self {
            ImageReport::Pulling(s) => ImageReportView::Pulling(s@),
            ImageReport::Pulled(s) => ImageReportView::Pulled(s@),
            ImageReport::FailedToPull(s) => ImageReportView::FailedToPull(s@),
        }
    }
}

/// The model of an optional report.
pub open spec fn opt_report(r: Option<ImageReport>) -> Option<ImageReportView> {
    match r {
        Some(r) => Some(r@),
        None => None,
    }
}

/// The pull policy of an image; it is pulled where it is not there, unless
/// something else is said.
pub open spec fn policy_of(policy: Option<Seq<char>>) -> Seq<char> {
    match policy {
        Some(p) => p,
        None => "IfNotPresent"@,
    }
}

/// The pull policy of an image; it is pulled where it is not there, unless
/// something else is said.
pub fn pull_policy(policy: &Option<String>) -> (r: String)
    ensures
        r@ == policy_of(text::opt_text(*policy)),
{
    match policy {
        Some(p) => p.clone(),
        None => "IfNotPresent".to_owned(),
    }
}

/// Whether an image is remembered, by the name that was given or by its full
/// name.
pub open spec fn is_cached(cache: Seq<Seq<char>>, name: Seq<char>) -> bool {
    cache.contains(name) || cache.contains(image::normalized_image(name))
}

/// The memory with one more name, which is not there twice.
pub open spec fn with_name(cache: Seq<Seq<char>>, name: Seq<char>) -> Seq<Seq<char>> {
    if cache.contains(name) {
        cache
    } else {
        cache.push(name)
    }
}

/// The memory with both names of an image.
pub open spec fn with_image(cache: Seq<Seq<char>>, name: Seq<char>) -> Seq<Seq<char>> {
    with_name(with_name(cache, name), image::normalized_image(name))
}

/// What follows an event: the next phase, and what is reported. An event that
/// does not belong to what is being done changes nothing.
pub open spec fn image_next(name: Seq<char>, phase: ImagePhaseView, e: ImageEvent) -> (
    ImagePhaseView,
    Option<ImageReportView>,
) {
    match (phase, e) {
        (ImagePhaseView::Look, ImageEvent::Looked(there)) => (ImagePhaseView::Decide(there), None),
        (ImagePhaseView::Decide(_), ImageEvent::Decided(action)) => match action {
            ImageAction::Pull => (
                ImagePhaseView::PullFull,
                Some(ImageReportView::Pulling("Pulling image \""@ + name + "\""@)),
            ),
            ImageAction::UseLocal => (ImagePhaseView::Local, None),
            ImageAction::ErrImageNeverPull => (ImagePhaseView::NeverPulled, None),
        },
        (ImagePhaseView::PullFull, ImageEvent::Pulled(error)) => match error {
            Some(err) => if image::normalized_image(name) != name {
                (ImagePhaseView::PullGiven, None)
            } else {
                pull_failed(name, err@)
            },
            None => pull_succeeded(name),
        },
        (ImagePhaseView::PullGiven, ImageEvent::Pulled(error)) => match error {
            Some(err) => pull_failed(name, err@),
            None => pull_succeeded(name),
        },
        _ => (phase, None),
    }
}

/// What follows a pull that has failed for good.
pub open spec fn pull_failed(name: Seq<char>, error: Seq<char>) -> (
    ImagePhaseView,
    Option<ImageReportView>,
) {
    (
        ImagePhaseView::Failed(error),
        Some(
            ImageReportView::FailedToPull("Failed to pull image \""@ + name + "\": "@ + error),
        ),
    )
}

/// What follows a pull that has succeeded.
pub open spec fn pull_succeeded(name: Seq<char>) -> (ImagePhaseView, Option<ImageReportView>) {
    (
        ImagePhaseView::Pulled,
        Some(ImageReportView::Pulled("Successfully pulled image \""@ + name + "\""@)),
    )
}

/// Whether an event says that the image is on the node.
pub open spec fn proves_presence(phase: ImagePhaseView, e: ImageEvent) -> bool {
    match (phase, e) {
        (ImagePhaseView::Look, ImageEvent::Looked(there)) => there,
        (ImagePhaseView::PullFull, ImageEvent::Pulled(error)) => error is None,
        (ImagePhaseView::PullGiven, ImageEvent::Pulled(error)) => error is None,
        _ => false,
    }
}

/// The error of a pull: the last one that was seen while the image came.
pub open spec fn pull_error_of(errors: Seq<Seq<char>>) -> Option<Seq<char>> {
    if errors.len() == 0 {
        None
    } else {
        Some("Image pull failed: "@ + errors.last())
    }
}

/// The error of a pull: the last one that was seen while the image came, or
/// none.
pub fn pull_error(errors: &Vec<String>) -> (r: Option<String>)
    ensures
        text::opt_text(r) == pull_error_of(text::strs(errors@)),
{
    if errors.len() == 0 {
        return None;
    }
    assert(text::strs(errors@).last() == errors@.last()@);
    Some("Image pull failed: ".to_owned().concat(errors[errors.len() - 1].as_str()))
}

fn report_failure(name: &str, error: String) -> (r: ImageStep)
    ensures
        (r.phase@, opt_report(r.report)) == pull_failed(name@, error@),
{
    let message = "Failed to pull image \"".to_owned().concat(name).concat("\": ").concat(
        error.as_str(),
    );
    ImageStep { phase: ImagePhase::Failed(error), report: Some(ImageReport::FailedToPull(message)) }
}

fn report_success(name: &str) -> (r: ImageStep)
    ensures
        (r.phase@, opt_report(r.report)) == pull_succeeded(name@),
{
    let message = "Successfully pulled image \"".to_owned().concat(name).concat("\"");
    ImageStep { phase: ImagePhase::Pulled, report: Some(ImageReport::Pulled(message)) }
}

impl ContainerRuntime {
    /// Whether only the remembered images differ.
    pub open spec fn same_but_images(self, other: ContainerRuntime) -> bool {
        self == (ContainerRuntime { image_cache: self.image_cache, ..other })
    }

    fn remember_name(&mut self, name: &str)
        requires
            old(self).wf(),
        ensures
            final(self).wf(),
            final(self).same_but_images(*old(self)),
            text::strs(final(self).image_cache@) == with_name(
                text::strs(old(self).image_cache@),
                name@,
            ),
    {
        if !text::list_contains(&self.image_cache, name) {
            let ghost before = text::strs(self.image_cache@);
            text::push_text(&mut self.image_cache, name.to_owned());
            assert(text::strs(self.image_cache@).no_duplicates()) by {
                let after = text::strs(self.image_cache@);
                assert forall|i: int, j: int|
                    0 <= i < after.len() && 0 <= j < after.len() && i != j implies after[i]
                    != after[j] by {
                    if i == after.len() - 1 {
                        assert(after[j] == before[j]);
                    } else {
                        assert(after[i] == before[i]);
                    }
                }
            }
        }
    }

    fn remember_image(&mut self, name: &str)
        requires
            old(self).wf(),
        ensures
            final(self).wf(),
            final(self).same_but_images(*old(self)),
            text::strs(final(self).image_cache@) == with_image(
                text::strs(old(self).image_cache@),
                name@,
            ),
    {
        self.remember_name(name);
        let full = normalize_image_name(name);
        self.remember_name(full.as_str());
    }

    /// The first thing to do to bring an image to the node: an image that is
    /// remembered is not looked for again, unless it is always pulled.
    pub fn begin_image(&self, name: &str, policy: &Option<String>) -> (r: ImagePhase)
        ensures
            r@ == (if is_cached(text::strs(self.image_cache@), name@) && policy_of(
                text::opt_text(*policy),
            ) != "Always"@ {
                ImagePhaseView::Decide(true)
            } else {
                ImagePhaseView::Look
            }),
    {
        let full = normalize_image_name(name);
        let cached = text::list_contains(&self.image_cache, name) || text::list_contains(
            &self.image_cache,
            full.as_str(),
        );
        let policy = pull_policy(policy);
        if cached && !text::same_text(policy.as_str(), "Always") {
            ImagePhase::Decide(true)
        } else {
            ImagePhase::Look
        }
    }

    /// Goes on with bringing an image to the node after an event. An image that
    /// is found on the node, or was pulled, is remembered by both its names.
    pub fn ensure_image(&mut self, name: &str, phase: ImagePhase, event: ImageEvent) -> (r:
        ImageStep)
        requires
            old(self).wf(),
        ensures
            (r.phase@, opt_report(r.report)) == image_next(name@, phase@, event),
            final(self).wf(),
            final(self).same_but_images(*old(self)),
            text::strs(final(self).image_cache@) == if proves_presence(phase@, event) {
                with_image(text::strs(old(self).image_cache@), name@)
            } else {
                text::strs(old(self).image_cache@)
            },
    {
        match phase {
            ImagePhase::Look => {
                if let ImageEvent::Looked(there) = event {
                    if there {
                        self.remember_image(name);
                    }
                    return ImageStep { phase: ImagePhase::Decide(there), report: None };
                }
            },
            ImagePhase::Decide(_) => {
                if let ImageEvent::Decided(action) = event {
                    return match action {
                        ImageAction::Pull => ImageStep {
                            phase: ImagePhase::PullFull,
                            report: Some(
                                ImageReport::Pulling(
                                    "Pulling image \"".to_owned().concat(name).concat("\""),
                                ),
                            ),
                        },
                        ImageAction::UseLocal => ImageStep {
                            phase: ImagePhase::Local,
                            report: None,
                        },
                        ImageAction::ErrImageNeverPull => ImageStep {
                            phase: ImagePhase::NeverPulled,
                            report: None,
                        },
                    };
                }
            },
            ImagePhase::PullFull => {
                if let ImageEvent::Pulled(error) = event {
                    return match error {
                        Some(err) => {
                            let full = normalize_image_name(name);
                            if text::same_text(full.as_str(), name) {
                                report_failure(name, err)
                            } else {
                                ImageStep { phase: ImagePhase::PullGiven, report: None }
                            }
                        },
                        None => {
                            self.remember_image(name);
                            report_success(name)
                        },
                    };
                }
            },
            ImagePhase::PullGiven => {
                if let ImageEvent::Pulled(error) = event {
                    return match error {
                        Some(err) => report_failure(name, err),
                        None => {
                            self.remember_image(name);
                            report_success(name)
                        },
                    };
                }
            },
            _ => {},
        }
        ImageStep { phase, report: None }
    }
}

// ---------------------------------------------------------------------------
// Laws
// ---------------------------------------------------------------------------

/// How many pulls may still follow in a phase, the one of the phase itself
/// among them.
pub open spec fn pulls_left(phase: ImagePhaseView) -> int {
    match phase {
        ImagePhaseView::Look => 2,
        ImagePhaseView::Decide(_) => 2,
        ImagePhaseView::PullFull => 2,
        ImagePhaseView::PullGiven => 1,
        _ => 0,
    }
}

/// An image is pulled at most twice: a pull that has ended leaves fewer pulls.
pub proof fn law_pulled_at_most_twice(name: Seq<char>, phase: ImagePhaseView, e: ImageEvent)
    ensures
        pulls_left(image_next(name, phase, e).0) <= pulls_left(phase) <= 2,
        (phase is PullFull || phase is PullGiven) && e is Pulled ==> pulls_left(
            image_next(name, phase, e).0,
        ) < pulls_left(phase),
{
}

/// An image is not pulled again under the same name.
pub proof fn law_second_pull_has_another_name(name: Seq<char>, phase: ImagePhaseView, e: ImageEvent)
    requires
        image_next(name, phase, e).0 is PullGiven,
        !(phase is PullGiven),
    ensures
        phase is PullFull,
        image::normalized_image(name) != name,
{
}

/// An image that was found or pulled is remembered: the next time it is not
/// looked for, whichever of its two names is given.
pub proof fn law_found_image_is_remembered(cache: Seq<Seq<char>>, name: Seq<char>)
    ensures
        is_cached(with_image(cache, name), name),
        with_image(cache, name).contains(image::normalized_image(name)),
        forall|other: Seq<char>|
            cache.contains(other) ==> #[trigger] with_image(cache, name).contains(other),
{
    let one = with_name(cache, name);
    let full = image::normalized_image(name);
    let two = with_name(one, full);
    assert(one.contains(name)) by {
        if !cache.contains(name) {
            assert(one[one.len() - 1] == name);
        }
    }
    assert(two.contains(full)) by {
        if !one.contains(full) {
            assert(two[two.len() - 1] == full);
        }
    }
    assert forall|other: Seq<char>| one.contains(other) implies two.contains(other) by {
        let i = choose|i: int| 0 <= i < one.len() && one[i] == other;
        assert(two[i] == other);
    }
    assert forall|other: Seq<char>| cache.contains(other) implies #[trigger] with_image(
        cache,
        name,
    ).contains(other) by {
        let i = choose|i: int| 0 <= i < cache.len() && cache[i] == other;
        assert(one[i] == other);
        assert(one.contains(other));
    }
}

/// An image that is there is used and not pulled, one that is to be pulled is
/// pulled, and one that is never to be pulled is not.
pub proof fn law_decision_is_carried_out(name: Seq<char>, there: bool)
    ensures
        image_next(name, ImagePhaseView::Look, ImageEvent::Looked(there)).0
            == ImagePhaseView::Decide(there),
        image_next(
            name,
            ImagePhaseView::Decide(there),
            ImageEvent::Decided(ImageAction::UseLocal),
        ).0 is Local,
        image_next(name, ImagePhaseView::Decide(there), ImageEvent::Decided(ImageAction::Pull)).0
            is PullFull,
        image_next(
            name,
            ImagePhaseView::Decide(there),
            ImageEvent::Decided(ImageAction::ErrImageNeverPull),
        ).0 is NeverPulled,
{
}

/// A pull that works ends with the image, and one that fails is tried once more
/// under the name as it was given, where that is another name; then it ends with
/// the error.
pub proof fn law_failed_pull_is_tried_under_the_given_name(name: Seq<char>, error: String)
    ensures
        image_next(name, ImagePhaseView::PullFull, ImageEvent::Pulled(None)).0 is Pulled,
        image_next(name, ImagePhaseView::PullGiven, ImageEvent::Pulled(None)).0 is Pulled,
        image::normalized_image(name) != name ==> image_next(
            name,
            ImagePhaseView::PullFull,
            ImageEvent::Pulled(Some(error)),
        ).0 is PullGiven,
        image::normalized_image(name) == name ==> image_next(
            name,
            ImagePhaseView::PullFull,
            ImageEvent::Pulled(Some(error)),
        ).0 == ImagePhaseView::Failed(error@),
        image_next(name, ImagePhaseView::PullGiven, ImageEvent::Pulled(Some(error))).0
            == ImagePhaseView::Failed(error@),
{
}

/// The begin of a pull, its end and its failure are reported with the name of the
/// image, and with nothing else.
pub proof fn law_pulls_are_reported(name: Seq<char>, there: bool, error: String)
    ensures
        image_next(name, ImagePhaseView::Decide(there), ImageEvent::Decided(ImageAction::Pull)).1
            == Some(ImageReportView::Pulling("Pulling image \""@ + name + "\""@)),
        image_next(name, ImagePhaseView::PullFull, ImageEvent::Pulled(None)).1 == Some(
            ImageReportView::Pulled("Successfully pulled image \""@ + name + "\""@),
        ),
        image_next(name, ImagePhaseView::PullGiven, ImageEvent::Pulled(Some(error))).1 == Some(
            ImageReportView::FailedToPull("Failed to pull image \""@ + name + "\": "@ + error@),
        ),
        image_next(
            name,
            ImagePhaseView::Decide(there),
            ImageEvent::Decided(ImageAction::UseLocal),
        ).1 is None,
{
}

/// An image is known to be there once it was seen there or pulled, and not
/// before.
pub proof fn law_presence_is_seen_or_pulled(phase: ImagePhaseView, error: Option<String>)
    ensures
        proves_presence(ImagePhaseView::Look, ImageEvent::Looked(true)),
        !proves_presence(ImagePhaseView::Look, ImageEvent::Looked(false)),
        phase is PullFull || phase is PullGiven ==> (proves_presence(
            phase,
            ImageEvent::Pulled(error),
        ) <==> error is None),
{
}

/// An image without a policy is pulled where it is not there.
pub proof fn law_policy_is_that_given(policy: Seq<char>)
    ensures
        policy_of(Some(policy)) == policy,
        policy_of(None) == "IfNotPresent"@,
{
}

/// What is known of one image says nothing of another.
pub proof fn law_other_images_are_not_known(
    cache: Seq<Seq<char>>,
    name: Seq<char>,
    other: Seq<char>,
)
    requires
        other != name,
        other != image::normalized_image(name),
    ensures
        with_image(cache, name).contains(other) ==> cache.contains(other),
{
    lemma_with_name(cache, name, other);
    lemma_with_name(with_name(cache, name), image::normalized_image(name), other);
}

proof fn lemma_with_name(cache: Seq<Seq<char>>, name: Seq<char>, other: Seq<char>)
    requires
        other != name,
    ensures
        with_name(cache, name).contains(other) ==> cache.contains(other),
{
    let all = with_name(cache, name);
    if all.contains(other) && !cache.contains(name) {
        let k = choose|k: int| 0 <= k < all.len() && all[k] == other;
        assert(cache[k] == other);
    }
}

/// The last error of a pull is the one that is told, and none where all went
/// well.
pub proof fn law_last_pull_error_is_told(errors: Seq<Seq<char>>, error: Seq<char>)
    ensures
        pull_error_of(errors.push(error)) == Some("Image pull failed: "@ + error),
        pull_error_of(Seq::empty()) is None,
{
}

} // verus!
