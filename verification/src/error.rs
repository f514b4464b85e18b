//! Failures as the command line reports them.

use vstd::prelude::*;

use crate::outside::{bold, cyan, red};
use crate::text;
use crate::text::{
    after_first, after_last, before_first, before_last, blank, cat, cat3, char_count, copy_list,
    copy_option, join_text, position, same, text_contains, text_lines, text_starts_with, text_take,
    trimmed, trimmed_char,
};

verus! {

/// A named piece of context that is printed below a failure.
pub struct Detail {
    pub key: String,
    pub value: String,
}

impl View for Detail {
    type V = (Seq<char>, Seq<char>);

    open spec fn view(&self) -> (Seq<char>, Seq<char>) {
        (self.key@, self.value@)
    }
}

impl DeepView for Detail {
    type V = (Seq<char>, Seq<char>);

    open spec fn deep_view(&self) -> (Seq<char>, Seq<char>) {
        self@
    }
}

/// A failure with what is known of its cause and of the way out.
pub struct CliError {
    pub message: String,
    pub reason: Option<String>,
    pub resolution: Option<String>,
    pub details: Vec<Detail>,
}

#[verifier::ext_equal]
pub struct CliErrorView {
    pub message: Seq<char>,
    pub reason: Option<Seq<char>>,
    pub resolution: Option<Seq<char>>,
    pub details: Seq<(Seq<char>, Seq<char>)>,
}

impl View for CliError {
    type V = CliErrorView;

    open spec fn view(&self) -> CliErrorView {
        CliErrorView {
            message: self.message@,
            reason: self.reason.deep_view(),
            resolution: self.resolution.deep_view(),
            details: self.details.deep_view(),
        }
    }
}

impl DeepView for CliError {
    type V = CliErrorView;

    open spec fn deep_view(&self) -> CliErrorView {
        self@
    }
}

/// A failure that says no more than its message.
pub open spec fn cli(message: Seq<char>) -> CliErrorView {
    CliErrorView { message, reason: None, resolution: None, details: seq![] }
}

impl CliErrorView {
    /// The failure with this reason; a blank one changes nothing.
    pub open spec fn because(self, reason: Seq<char>) -> CliErrorView {
        if text::is_blank(reason) {
            self
        } else {
            CliErrorView { reason: Some(reason), ..self }
        }
    }

    /// The failure with this way out; a blank one changes nothing.
    pub open spec fn fixed_by(self, resolution: Seq<char>) -> CliErrorView {
        if text::is_blank(resolution) {
            self
        } else {
            CliErrorView { resolution: Some(resolution), ..self }
        }
    }

    /// The failure with one more detail; a blank value changes nothing.
    pub open spec fn with(self, key: Seq<char>, value: Seq<char>) -> CliErrorView {
        if text::is_blank(value) {
            self
        } else {
            CliErrorView { details: self.details.push((key, value)), ..self }
        }
    }
}

impl CliError {
    pub fn new(message: &str) -> (r: Self)
        ensures
            r@ == cli(message@),
    {
        let r = CliError {
            message: message.to_owned(),
            reason: None,
            resolution: None,
            details: Vec::new(),
        };
        assert(r@ =~= cli(message@));
        r
    }

    pub fn reason(self, reason: &str) -> (r: Self)
        ensures
            r@ == self@.because(reason@),
    {
        let mut me = self;
        if !blank(reason) {
            me.reason = Some(reason.to_owned());
        }
        me
    }

    pub fn resolution(self, resolution: &str) -> (r: Self)
        ensures
            r@ == self@.fixed_by(resolution@),
    {
        let mut me = self;
        if !blank(resolution) {
            me.resolution = Some(resolution.to_owned());
        }
        me
    }

    pub fn detail(self, key: &str, value: &str) -> (r: Self)
        ensures
            r@ == self@.with(key@, value@),
    {
        let mut me = self;
        if !blank(value) {
            me.details.push(Detail { key: key.to_owned(), value: value.to_owned() });
        }
        assert(me@ =~= self@.with(key@, value@));
        me
    }

    /// A copy of the failure.
    pub fn copy(&self) -> (r: Self)
        ensures
            r@ == self@,
    {
        let r = CliError {
            message: self.message.clone(),
            reason: copy_option(&self.reason),
            resolution: copy_option(&self.resolution),
            details: copy_details(&self.details),
        };
        assert(r@ =~= self@);
        r
    }
}

fn copy_details(details: &Vec<Detail>) -> (r: Vec<Detail>)
    ensures
        r.deep_view() == details.deep_view(),
{
    let mut v: Vec<Detail> = Vec::new();
    let mut i: usize = 0;
    while i < details.len()
        invariant
            i <= details@.len(),
            v@.len() == i,
            forall|k: int| 0 <= k < i ==> (#[trigger] v@[k])@ == details@[k]@,
        decreases details@.len() - i,
    {
        v.push(Detail { key: details[i].key.clone(), value: details[i].value.clone() });
        i = i + 1;
    }
    assert(v.deep_view() =~= details.deep_view());
    v
}

/// Says that a merge cannot go on before the stack has been submitted.
pub struct MergeSubmitRequired {
    pub reason: String,
    pub resolution: String,
    pub phase: Option<String>,
    pub object: Option<String>,
}

/// Says that a merge cannot go on before the stack has been synced.
pub struct MergeSyncRequired {
    pub reason: String,
    pub resolution: String,
    pub phase: Option<String>,
    pub object: Option<String>,
}

/// Says that a merge cannot go on before these frozen dependencies have been adopted.
pub struct MergeUnfreezeRequired {
    pub message: String,
    /// The merge target the user passed, or `None` for a whole-stack merge.
    pub target: Option<String>,
    pub unfreeze_targets: Vec<String>,
    pub reason: String,
    pub resolution: String,
}

#[verifier::ext_equal]
pub struct MergeRequiredView {
    pub reason: Seq<char>,
    pub resolution: Seq<char>,
    pub phase: Option<Seq<char>>,
    pub object: Option<Seq<char>>,
}

#[verifier::ext_equal]
pub struct MergeUnfreezeView {
    pub message: Seq<char>,
    pub target: Option<Seq<char>>,
    pub unfreeze_targets: Seq<Seq<char>>,
    pub reason: Seq<char>,
    pub resolution: Seq<char>,
}

impl View for MergeSubmitRequired {
    type V = MergeRequiredView;

    open spec fn view(&self) -> MergeRequiredView {
        MergeRequiredView {
            reason: self.reason@,
            resolution: self.resolution@,
            phase: self.phase.deep_view(),
            object: self.object.deep_view(),
        }
    }
}

impl View for MergeSyncRequired {
    type V = MergeRequiredView;

    open spec fn view(&self) -> MergeRequiredView {
        MergeRequiredView {
            reason: self.reason@,
            resolution: self.resolution@,
            phase: self.phase.deep_view(),
            object: self.object.deep_view(),
        }
    }
}

impl View for MergeUnfreezeRequired {
    type V = MergeUnfreezeView;

    open spec fn view(&self) -> MergeUnfreezeView {
        MergeUnfreezeView {
            message: self.message@,
            target: self.target.deep_view(),
            unfreeze_targets: self.unfreeze_targets.deep_view(),
            reason: self.reason@,
            resolution: self.resolution@,
        }
    }
}

impl MergeRequiredView {
    /// How the demand is reported; `fallback` is the headline when no phase is known.
    pub open spec fn report(self, fallback: Seq<char>) -> CliErrorView {
        let headline = match self.phase {
            Some(phase) => phase_summary_for_error_text(phase),
            None => fallback,
        };
        let plain = cli(headline).because(self.reason).fixed_by(self.resolution);
        let phased = match self.phase {
            Some(phase) => plain.with("phase"@, phase),
            None => plain,
        };
        match self.object {
            Some(object) => phased.with("object"@, object),
            None => phased,
        }
    }
}

impl MergeUnfreezeView {
    pub open spec fn report(self) -> CliErrorView {
        cli(self.message).because(self.reason).fixed_by(self.resolution)
    }
}

fn merge_required_report(
    reason: &str,
    resolution: &str,
    phase: &Option<String>,
    object: &Option<String>,
    fallback: &str,
) -> (r: CliError)
    ensures
        r@ == (MergeRequiredView {
            reason: reason@,
            resolution: resolution@,
            phase: phase.deep_view(),
            object: object.deep_view(),
        }).report(fallback@),
{
    let headline = match phase {
        Some(p) => phase_summary_for_error(p),
        None => fallback.to_owned(),
    };
    let mut error = CliError::new(&headline).reason(reason).resolution(resolution);
    if let Some(p) = phase {
        error = error.detail("phase", p);
    }
    if let Some(o) = object {
        error = error.detail("object", o);
    }
    error
}

impl MergeSubmitRequired {
    pub fn new(reason: &str, resolution: &str) -> (r: Self)
        ensures
            r@ == (MergeRequiredView {
                reason: reason@,
                resolution: resolution@,
                phase: None,
                object: None,
            }),
    {
        MergeSubmitRequired {
            reason: reason.to_owned(),
            resolution: resolution.to_owned(),
            phase: None,
            object: None,
        }
    }

    pub fn with_phase(self, phase: &str, object: &str) -> (r: Self)
        ensures
            r@ == (MergeRequiredView { phase: Some(phase@), object: Some(object@), ..self@ }),
    {
        let mut me = self;
        me.phase = Some(phase.to_owned());
        me.object = Some(object.to_owned());
        me
    }

    pub fn cli_error(&self) -> (r: CliError)
        ensures
            r@ == self@.report("stack must be submitted before merge"@),
    {
        merge_required_report(
            &self.reason,
            &self.resolution,
            &self.phase,
            &self.object,
            "stack must be submitted before merge",
        )
    }

    pub fn copy(&self) -> (r: Self)
        ensures
            r@ == self@,
    {
        MergeSubmitRequired {
            reason: self.reason.clone(),
            resolution: self.resolution.clone(),
            phase: copy_option(&self.phase),
            object: copy_option(&self.object),
        }
    }
}

impl MergeSyncRequired {
    pub fn new(reason: &str, resolution: &str) -> (r: Self)
        ensures
            r@ == (MergeRequiredView {
                reason: reason@,
                resolution: resolution@,
                phase: None,
                object: None,
            }),
    {
        MergeSyncRequired {
            reason: reason.to_owned(),
            resolution: resolution.to_owned(),
            phase: None,
            object: None,
        }
    }

    pub fn with_phase(self, phase: &str, object: &str) -> (r: Self)
        ensures
            r@ == (MergeRequiredView { phase: Some(phase@), object: Some(object@), ..self@ }),
    {
        let mut me = self;
        me.phase = Some(phase.to_owned());
        me.object = Some(object.to_owned());
        me
    }

    pub fn cli_error(&self) -> (r: CliError)
        ensures
            r@ == self@.report("stack must be synced before merge"@),
    {
        merge_required_report(
            &self.reason,
            &self.resolution,
            &self.phase,
            &self.object,
            "stack must be synced before merge",
        )
    }

    pub fn copy(&self) -> (r: Self)
        ensures
            r@ == self@,
    {
        MergeSyncRequired {
            reason: self.reason.clone(),
            resolution: self.resolution.clone(),
            phase: copy_option(&self.phase),
            object: copy_option(&self.object),
        }
    }
}

impl MergeUnfreezeRequired {
    pub fn new(
        message: &str,
        target: Option<String>,
        unfreeze_targets: Vec<String>,
        reason: &str,
        resolution: &str,
    ) -> (r: Self)
        ensures
            r@ == (MergeUnfreezeView {
                message: message@,
                target: target.deep_view(),
                unfreeze_targets: unfreeze_targets.deep_view(),
                reason: reason@,
                resolution: resolution@,
            }),
    {
        MergeUnfreezeRequired {
            message: message.to_owned(),
            target,
            unfreeze_targets,
            reason: reason.to_owned(),
            resolution: resolution.to_owned(),
        }
    }

    pub fn cli_error(&self) -> (r: CliError)
        ensures
            r@ == self@.report(),
    {
        CliError::new(&self.message).reason(&self.reason).resolution(&self.resolution)
    }

    pub fn copy(&self) -> (r: Self)
        ensures
            r@ == self@,
    {
        MergeUnfreezeRequired {
            message: self.message.clone(),
            target: copy_option(&self.target),
            unfreeze_targets: copy_list(&self.unfreeze_targets),
            reason: self.reason.clone(),
            resolution: self.resolution.clone(),
        }
    }
}

/// One link of a chain of causes.
pub enum Cause {
    Text(String),
    Cli(CliError),
    Submit(MergeSubmitRequired),
    Sync(MergeSyncRequired),
    Unfreeze(MergeUnfreezeRequired),
}

pub enum CauseView {
    Text(Seq<char>),
    Cli(CliErrorView),
    Submit(MergeRequiredView),
    Sync(MergeRequiredView),
    Unfreeze(MergeUnfreezeView),
}

impl View for Cause {
    type V = CauseView;

    open spec fn view(&self) -> CauseView {
        match self {
            Cause::Text(s) => CauseView::Text(s@),
            Cause::Cli(c) => CauseView::Cli(c@),
            Cause::Submit(m) => CauseView::Submit(m@),
            Cause::Sync(m) => CauseView::Sync(m@),
            Cause::Unfreeze(m) => CauseView::Unfreeze(m@),
        }
    }
}

impl DeepView for Cause {
    type V = CauseView;

    open spec fn deep_view(&self) -> CauseView {
        self@
    }
}

impl CauseView {
    /// The report that a cause carries, unless it is plain text.
    pub open spec fn report(self) -> Option<CliErrorView> {
        match self {
            CauseView::Text(s) => None,
            CauseView::Cli(c) => Some(c),
            CauseView::Submit(m) => Some(m.report("stack must be submitted before merge"@)),
            CauseView::Sync(m) => Some(m.report("stack must be synced before merge"@)),
            CauseView::Unfreeze(m) => Some(m.report()),
        }
    }

    /// The one line that names the cause.
    pub open spec fn headline(self) -> Seq<char> {
        match self {
            CauseView::Text(s) => s,
            _ => self.report()->0.message,
        }
    }
}

/// A failure as a chain of causes, the outermost first.
pub struct Error {
    pub causes: Vec<Cause>,
}

impl View for Error {
    type V = Seq<CauseView>;

    open spec fn view(&self) -> Seq<CauseView> {
        self.causes.deep_view()
    }
}

impl DeepView for Error {
    type V = Seq<CauseView>;

    open spec fn deep_view(&self) -> Seq<CauseView> {
        self@
    }
}

/// A failure that is one line of text.
pub open spec fn plain(message: Seq<char>) -> Seq<CauseView> {
    seq![CauseView::Text(message)]
}

/// A failure that is one report.
pub open spec fn reported(error: CliErrorView) -> Seq<CauseView> {
    seq![CauseView::Cli(error)]
}

/// A failure with one more line of context in front.
pub open spec fn in_context(context: Seq<char>, error: Seq<CauseView>) -> Seq<CauseView> {
    seq![CauseView::Text(context)] + error
}

/// What a result says, over the views of its value and its failure.
pub open spec fn res<T: DeepView>(r: Result<T, Error>) -> Result<T::V, Seq<CauseView>> {
    match r {
        Ok(v) => Ok(v.deep_view()),
        Err(e) => Err(e@),
    }
}

/// What a result says whose value is its own view.
pub open spec fn res_of<T>(r: Result<T, Error>) -> Result<T, Seq<CauseView>> {
    match r {
        Ok(v) => Ok(v),
        Err(e) => Err(e@),
    }
}

pub fn fail(message: &str) -> (e: Error)
    ensures
        e@ == plain(message@),
{
    let mut causes: Vec<Cause> = Vec::new();
    causes.push(Cause::Text(message.to_owned()));
    let e = Error { causes };
    assert(e@ =~= plain(message@));
    e
}

pub fn report(error: CliError) -> (e: Error)
    ensures
        e@ == reported(error@),
{
    let mut causes: Vec<Cause> = Vec::new();
    causes.push(Cause::Cli(error));
    let e = Error { causes };
    assert(e@ =~= reported(error@));
    e
}

impl Error {
    pub fn context(self, message: &str) -> (e: Error)
        ensures
            e@ == in_context(message@, self@),
    {
        let mut causes = self.causes;
        causes.insert(0, Cause::Text(message.to_owned()));
        let e = Error { causes };
        assert(e@ =~= in_context(message@, self@));
        e
    }
}

// ---------------------------------------------------------------------------
// From failures to reports
// ---------------------------------------------------------------------------

pub open spec fn phase_summary_for_error_text(phase: Seq<char>) -> Seq<char> {
    if phase == "merge-pr-lookup"@ {
        "failed during merge-pr-lookup"@
    } else if phase == "merge-pr-check"@ {
        "failed during merge-pr-check"@
    } else if phase == "merge-push"@ {
        "failed during merge-push"@
    } else {
        "command failed"@
    }
}

pub fn phase_summary_for_error(phase: &str) -> (r: String)
    ensures
        r@ == phase_summary_for_error_text(phase@),
{
    if same(phase, "merge-pr-lookup") {
        "failed during merge-pr-lookup".to_owned()
    } else if same(phase, "merge-pr-check") {
        "failed during merge-pr-check".to_owned()
    } else if same(phase, "merge-push") {
        "failed during merge-push".to_owned()
    } else {
        "command failed".to_owned()
    }
}

/// The headline of a failure in a phase that acted on `object`.
pub open spec fn phase_summary_text(phase: Seq<char>, object: Seq<char>) -> Seq<char> {
    if phase == "resolve-config"@ {
        "could not resolve configuration"@
    } else if phase == "startup-config"@ {
        "could not prepare jj config"@
    } else if phase == "resolve-stack"@ {
        "could not resolve stack `"@ + object + "`"@
    } else if phase == "resolve-merge-target"@ {
        "could not resolve merge target `"@ + object + "`"@
    } else if phase == "resolve-sync-target"@ {
        "could not resolve sync target `"@ + object + "`"@
    } else if phase == "merge-refresh-above"@ {
        "could not refresh stack above `"@ + object + "`"@
    } else if phase == "resolve-github"@ {
        "could not resolve GitHub context for `"@ + object + "`"@
    } else if phase == "resolve-pr"@ {
        "could not resolve PR for `"@ + object + "`"@
    } else if phase == "open-pr"@ {
        "could not open PR URL `"@ + object + "`"@
    } else if phase == "status"@ {
        "could not build status for `"@ + object + "`"@
    } else {
        "failed during "@ + phase
    }
}

pub fn phase_summary(phase: &str, object: &str) -> (r: String)
    ensures
        r@ == phase_summary_text(phase@, object@),
{
    if same(phase, "resolve-config") {
        "could not resolve configuration".to_owned()
    } else if same(phase, "startup-config") {
        "could not prepare jj config".to_owned()
    } else if same(phase, "resolve-stack") {
        cat3("could not resolve stack `", object, "`")
    } else if same(phase, "resolve-merge-target") {
        cat3("could not resolve merge target `", object, "`")
    } else if same(phase, "resolve-sync-target") {
        cat3("could not resolve sync target `", object, "`")
    } else if same(phase, "merge-refresh-above") {
        cat3("could not refresh stack above `", object, "`")
    } else if same(phase, "resolve-github") {
        cat3("could not resolve GitHub context for `", object, "`")
    } else if same(phase, "resolve-pr") {
        cat3("could not resolve PR for `", object, "`")
    } else if same(phase, "open-pr") {
        cat3("could not open PR URL `", object, "`")
    } else if same(phase, "status") {
        cat3("could not build status for `", object, "`")
    } else {
        cat("failed during ", phase)
    }
}

/// The value behind `key` up to the next space, without back quotes around it.
pub open spec fn structured_value_of(message: Seq<char>, key: Seq<char>) -> Option<Seq<char>> {
    match text::find(message, key) {
        None => None,
        Some(i) => {
            let rest = message.skip(i + key.len());
            let value = text::trim(
                match text::find(rest, " "@) {
                    Some(j) => rest.take(j),
                    None => rest,
                },
            );
            if value.len() == 0 {
                None
            } else {
                Some(text::trim_char(value, '`'))
            }
        },
    }
}

pub fn structured_value(message: &str, key: &str) -> (r: Option<String>)
    ensures
        r.deep_view() == structured_value_of(message@, key@),
{
    let rest = match after_first(message, key) {
        Some(rest) => rest,
        None => return None,
    };
    let value = match before_first(&rest, " ") {
        Some(value) => trimmed(&value),
        None => trimmed(&rest),
    };
    if value.as_str().is_empty() {
        None
    } else {
        Some(trimmed_char(&value, '`'))
    }
}

/// The value behind `key` up to the next back quote.
pub open spec fn backtick_value_of(message: Seq<char>, key: Seq<char>) -> Option<Seq<char>> {
    match text::find(message, key) {
        None => None,
        Some(i) => {
            let rest = message.skip(i + key.len());
            match text::find(rest, "`"@) {
                None => None,
                Some(j) => {
                    let value = text::trim(rest.take(j));
                    if value.len() == 0 {
                        None
                    } else {
                        Some(value)
                    }
                },
            }
        },
    }
}

pub fn backtick_value(message: &str, key: &str) -> (r: Option<String>)
    ensures
        r.deep_view() == backtick_value_of(message@, key@),
{
    let rest = match after_first(message, key) {
        Some(rest) => rest,
        None => return None,
    };
    match before_first(&rest, "`") {
        None => None,
        Some(value) => {
            let value = trimmed(&value);
            if value.as_str().is_empty() {
                None
            } else {
                Some(value)
            }
        },
    }
}

/// The smaller of `end` and the place where `marker` first stands.
pub open spec fn cut_at(text: Seq<char>, marker: Seq<char>, end: int) -> int {
    match text::find(text, marker) {
        Some(i) => if i < end {
            i
        } else {
            end
        },
        None => end,
    }
}

fn cut(text: &str, marker: &str, end: usize) -> (r: usize)
    requires
        end <= text@.len(),
    ensures
        r == cut_at(text@, marker@, end as int),
        r <= text@.len(),
{
    match position(text, marker) {
        Some(i) => if i < end {
            i
        } else {
            end
        },
        None => end,
    }
}

/// The text behind `error=` up to the next of the other keys.
pub open spec fn structured_error_reason_of(message: Seq<char>) -> Option<Seq<char>> {
    match text::find(message, "error="@) {
        None => None,
        Some(i) => {
            let rest = message.skip(i + "error="@.len());
            let a = cut_at(rest, " safe-next-command="@, rest.len() as int);
            let b = cut_at(rest, " failed-command="@, a);
            let c = cut_at(rest, " failed-api="@, b);
            let d = cut_at(rest, " phase="@, c);
            let e = cut_at(rest, " object="@, d);
            let reason = text::trim(rest.take(e));
            if reason.len() == 0 {
                None
            } else {
                Some(reason)
            }
        },
    }
}

pub fn structured_error_reason(message: &str) -> (r: Option<String>)
    ensures
        r.deep_view() == structured_error_reason_of(message@),
{
    let rest = match after_first(message, "error=") {
        Some(rest) => rest,
        None => return None,
    };
    let a = cut(&rest, " safe-next-command=", char_count(&rest));
    let b = cut(&rest, " failed-command=", a);
    let c = cut(&rest, " failed-api=", b);
    let d = cut(&rest, " phase=", c);
    let e = cut(&rest, " object=", d);
    let reason = trimmed(&text_take(&rest, e));
    if reason.as_str().is_empty() {
        None
    } else {
        Some(reason)
    }
}

/// The report that a line of text stands for.
pub open spec fn message_report(message: Seq<char>) -> CliErrorView {
    let base = match structured_value_of(message, "phase="@) {
        Some(phase) => {
            let object = match structured_value_of(message, "object="@) {
                Some(object) => object,
                None => seq![],
            };
            cli(phase_summary_text(phase, object)).with("phase"@, phase)
        },
        None => if text::contains(message, "failed-command=`"@) {
            cli("command failed"@)
        } else if text::contains(message, "failed-api=`"@) {
            cli("GitHub API request failed"@)
        } else {
            cli(text::trim(message))
        },
    };
    let a = match structured_value_of(message, "object="@) {
        Some(object) => base.with("object"@, object),
        None => base,
    };
    let b = match backtick_value_of(message, "failed-command=`"@) {
        Some(command) => a.with("command"@, command),
        None => a,
    };
    let c = match backtick_value_of(message, "failed-api=`"@) {
        Some(api) => b.with("api"@, api),
        None => b,
    };
    let d = match structured_error_reason_of(message) {
        Some(reason) => c.because(reason),
        None => c,
    };
    match backtick_value_of(message, "safe-next-command=`"@) {
        Some(command) => d.fixed_by("run `"@ + command + "`"@),
        None => d,
    }
}

pub fn diagnostic_from_message(message: &str) -> (r: CliError)
    ensures
        r@ == message_report(message@),
{
    let mut diagnostic = match structured_value(message, "phase=") {
        Some(phase) => {
            let object = match structured_value(message, "object=") {
                Some(object) => object,
                None => String::new(),
            };
            CliError::new(&phase_summary(&phase, &object)).detail("phase", &phase)
        },
        None => if text_contains(message, "failed-command=`") {
            CliError::new("command failed")
        } else if text_contains(message, "failed-api=`") {
            CliError::new("GitHub API request failed")
        } else {
            CliError::new(&trimmed(message))
        },
    };
    if let Some(object) = structured_value(message, "object=") {
        diagnostic = diagnostic.detail("object", &object);
    }
    if let Some(command) = backtick_value(message, "failed-command=`") {
        diagnostic = diagnostic.detail("command", &command);
    }
    if let Some(api) = backtick_value(message, "failed-api=`") {
        diagnostic = diagnostic.detail("api", &api);
    }
    if let Some(reason) = structured_error_reason(message) {
        diagnostic = diagnostic.reason(&reason);
    }
    if let Some(command) = backtick_value(message, "safe-next-command=`") {
        diagnostic = diagnostic.resolution(&cat3("run `", &command, "`"));
    }
    diagnostic
}

/// The report of the outermost cause that carries one.
pub open spec fn first_report(causes: Seq<CauseView>) -> Option<CliErrorView>
    decreases causes.len(),
{
    if causes.len() == 0 {
        None
    } else if causes[0].report() is Some {
        causes[0].report()
    } else {
        first_report(causes.drop_first())
    }
}

pub open spec fn headlines(causes: Seq<CauseView>) -> Seq<Seq<char>> {
    causes.map_values(|c: CauseView| c.headline())
}

/// The report of a chain of causes: the one that the outermost structured cause carries; else the
/// one that the outermost line stands for, with the lines below it as the reason if it names none.
pub open spec fn chain_report(causes: Seq<CauseView>) -> CliErrorView {
    match first_report(causes) {
        Some(report) => report,
        None => {
            let message = if causes.len() > 0 {
                causes[0].headline()
            } else {
                "command failed"@
            };
            let report = message_report(message);
            if report.reason is None && causes.len() > 1 {
                CliErrorView {
                    reason: Some(text::join(headlines(causes.skip(1)), ": "@)),
                    ..report
                }
            } else {
                report
            }
        },
    }
}

impl Cause {
    /// The report that this cause carries, unless it is plain text.
    pub fn report(&self) -> (r: Option<CliError>)
        ensures
            r.deep_view() == self@.report(),
    {
        match self {
            Cause::Text(_) => None,
            Cause::Cli(c) => Some(c.copy()),
            Cause::Submit(m) => Some(m.cli_error()),
            Cause::Sync(m) => Some(m.cli_error()),
            Cause::Unfreeze(m) => Some(m.cli_error()),
        }
    }

    /// The one line that names this cause.
    pub fn headline(&self) -> (r: String)
        ensures
            r@ == self@.headline(),
    {
        match self {
            Cause::Text(s) => s.clone(),
            Cause::Cli(c) => c.message.clone(),
            Cause::Submit(m) => m.cli_error().message,
            Cause::Sync(m) => m.cli_error().message,
            Cause::Unfreeze(m) => m.cli_error().message,
        }
    }
}

/// The headlines of the causes from number `from` on.
fn headlines_from(causes: &Vec<Cause>, from: usize) -> (r: Vec<String>)
    requires
        from <= causes@.len(),
    ensures
        r.deep_view() == headlines(causes.deep_view().skip(from as int)),
{
    let mut out: Vec<String> = Vec::new();
    let mut i: usize = from;
    while i < causes.len()
        invariant
            from <= i <= causes@.len(),
            out@.len() == i - from,
            forall|k: int| 0 <= k < i - from ==> (#[trigger] out@[k])@ == causes@[from + k]@.headline(),
        decreases causes@.len() - i,
    {
        out.push(causes[i].headline());
        i = i + 1;
    }
    assert(out.deep_view() =~= headlines(causes.deep_view().skip(from as int)));
    out
}

/// The whole chain on one line.
pub open spec fn chain_text(causes: Seq<CauseView>) -> Seq<char> {
    text::join(headlines(causes), ": "@)
}

impl Error {
    pub fn chain_line(&self) -> (r: String)
        ensures
            r@ == chain_text(self@),
    {
        let lines = headlines_from(&self.causes, 0);
        assert(self@.skip(0) =~= self@);
        join_text(&lines, ": ")
    }
}

/// The outermost line of a chain of causes.
pub open spec fn top_line(causes: Seq<CauseView>) -> Seq<char> {
    if causes.len() > 0 {
        causes[0].headline()
    } else {
        seq![]
    }
}

impl Error {
    pub fn top(&self) -> (r: String)
        ensures
            r@ == top_line(self@),
    {
        if self.causes.len() > 0 {
            assert(self@[0] == self.causes@[0]@);
            self.causes[0].headline()
        } else {
            String::new()
        }
    }
}

pub fn diagnostic_from_error(error: &Error) -> (r: CliError)
    ensures
        r@ == chain_report(error@),
{
    let mut i: usize = 0;
    assert(error@.skip(0) =~= error@);
    while i < error.causes.len()
        invariant
            i <= error.causes@.len(),
            first_report(error@) == first_report(error@.skip(i as int)),
        decreases error.causes@.len() - i,
    {
        assert(error@.skip(i as int)[0] == error.causes@[i as int]@);
        assert(error@.skip(i as int).drop_first() =~= error@.skip(i + 1));
        if let Some(found) = error.causes[i].report() {
            return found;
        }
        i = i + 1;
    }
    let message = if error.causes.len() > 0 {
        error.causes[0].headline()
    } else {
        "command failed".to_owned()
    };
    let mut diagnostic = diagnostic_from_message(&message);
    if diagnostic.reason.is_none() && error.causes.len() > 1 {
        diagnostic.reason = Some(join_text(&headlines_from(&error.causes, 1), ": "));
    }
    diagnostic
}

pub open spec fn first_submit(causes: Seq<CauseView>) -> Option<MergeRequiredView>
    decreases causes.len(),
{
    if causes.len() == 0 {
        None
    } else {
        match causes[0] {
            CauseView::Submit(m) => Some(m),
            _ => first_submit(causes.drop_first()),
        }
    }
}

pub open spec fn first_sync(causes: Seq<CauseView>) -> Option<MergeRequiredView>
    decreases causes.len(),
{
    if causes.len() == 0 {
        None
    } else {
        match causes[0] {
            CauseView::Sync(m) => Some(m),
            _ => first_sync(causes.drop_first()),
        }
    }
}

pub open spec fn first_unfreeze(causes: Seq<CauseView>) -> Option<MergeUnfreezeView>
    decreases causes.len(),
{
    if causes.len() == 0 {
        None
    } else {
        match causes[0] {
            CauseView::Unfreeze(m) => Some(m),
            _ => first_unfreeze(causes.drop_first()),
        }
    }
}

pub fn find_merge_submit_required(error: &Error) -> (r: Option<MergeSubmitRequired>)
    ensures
        match r {
            Some(m) => first_submit(error@) == Some(m@),
            None => first_submit(error@) is None,
        },
{
    let mut i: usize = 0;
    assert(error@.skip(0) =~= error@);
    while i < error.causes.len()
        invariant
            i <= error.causes@.len(),
            first_submit(error@) == first_submit(error@.skip(i as int)),
        decreases error.causes@.len() - i,
    {
        assert(error@.skip(i as int)[0] == error.causes@[i as int]@);
        assert(error@.skip(i as int).drop_first() =~= error@.skip(i + 1));
        if let Cause::Submit(m) = &error.causes[i] {
            return Some(m.copy());
        }
        i = i + 1;
    }
    None
}

pub fn find_merge_sync_required(error: &Error) -> (r: Option<MergeSyncRequired>)
    ensures
        match r {
            Some(m) => first_sync(error@) == Some(m@),
            None => first_sync(error@) is None,
        },
{
    let mut i: usize = 0;
    assert(error@.skip(0) =~= error@);
    while i < error.causes.len()
        invariant
            i <= error.causes@.len(),
            first_sync(error@) == first_sync(error@.skip(i as int)),
        decreases error.causes@.len() - i,
    {
        assert(error@.skip(i as int)[0] == error.causes@[i as int]@);
        assert(error@.skip(i as int).drop_first() =~= error@.skip(i + 1));
        if let Cause::Sync(m) = &error.causes[i] {
            return Some(m.copy());
        }
        i = i + 1;
    }
    None
}

pub fn find_merge_unfreeze_required(error: &Error) -> (r: Option<MergeUnfreezeRequired>)
    ensures
        match r {
            Some(m) => first_unfreeze(error@) == Some(m@),
            None => first_unfreeze(error@) is None,
        },
{
    let mut i: usize = 0;
    assert(error@.skip(0) =~= error@);
    while i < error.causes.len()
        invariant
            i <= error.causes@.len(),
            first_unfreeze(error@) == first_unfreeze(error@.skip(i as int)),
        decreases error.causes@.len() - i,
    {
        assert(error@.skip(i as int)[0] == error.causes@[i as int]@);
        assert(error@.skip(i as int).drop_first() =~= error@.skip(i + 1));
        if let Cause::Unfreeze(m) = &error.causes[i] {
            return Some(m.copy());
        }
        i = i + 1;
    }
    None
}

/// Why a failure happened: the whole chain if it has several links, else what its report says.
pub open spec fn failure_reason(causes: Seq<CauseView>, report: CliErrorView) -> Seq<char> {
    if causes.len() > 1 {
        chain_text(causes)
    } else {
        match report.reason {
            Some(reason) => reason,
            None => report.message,
        }
    }
}

pub fn reason_from_error(error: &Error, diagnostic: &CliError) -> (r: String)
    ensures
        r@ == failure_reason(error@, diagnostic@),
{
    if error.causes.len() > 1 {
        return error.chain_line();
    }
    match &diagnostic.reason {
        Some(reason) => reason.clone(),
        None => diagnostic.message.clone(),
    }
}

/// The failure of a phase that acted on `object`.
pub open spec fn phase_failure(phase: Seq<char>, object: Seq<char>, causes: Seq<CauseView>) -> Seq<
    CauseView,
> {
    let inner = chain_report(causes);
    if phase == "resolve-pr"@ && (inner.message == "no current PR"@ || inner.message
        == "current revision is not submitted"@) {
        reported(inner.with("phase"@, phase).with("object"@, object))
    } else {
        let resolution = match inner.resolution {
            Some(resolution) => resolution,
            None => "run `forklift submit --dry-run` to preview the stack state"@,
        };
        let outer = cli(phase_summary_text(phase, object)).because(
            failure_reason(causes, inner),
        ).fixed_by(resolution).with("phase"@, phase).with("object"@, object);
        reported(CliErrorView { details: outer.details + inner.details, ..outer })
    }
}

pub fn phase_error(phase: &str, object: &str, error: Error) -> (r: Error)
    ensures
        r@ == phase_failure(phase@, object@, error@),
{
    let inner = diagnostic_from_error(&error);
    if same(phase, "resolve-pr") && (same(&inner.message, "no current PR") || same(
        &inner.message,
        "current revision is not submitted",
    )) {
        return report(inner.detail("phase", phase).detail("object", object));
    }
    let resolution = match &inner.resolution {
        Some(resolution) => resolution.clone(),
        None => "run `forklift submit --dry-run` to preview the stack state".to_owned(),
    };
    let mut outer = CliError::new(&phase_summary(phase, object)).reason(
        &reason_from_error(&error, &inner),
    ).resolution(&resolution).detail("phase", phase).detail("object", object);
    let ghost before = outer@;
    let mut tail = inner.details;
    outer.details.append(&mut tail);
    assert(outer.details.deep_view() =~= before.details + inner@.details);
    report(outer)
}

/// The innermost message behind the `phase=`, `failed-command=` and `failed-api=` breadcrumbs.
pub open spec fn unwrapped_headline(headline: Seq<char>) -> Seq<char>
    decreases headline.len(),
{
    if text::starts_with(headline, "phase="@) || text::starts_with(headline, "failed-command="@) || text::starts_with(
        headline,
        "failed-api="@,
    ) {
        match text::find(headline, " error="@) {
            Some(i) => {
                proof {
                    reveal_strlit(" error=");
                    text::lemma_find_from(headline, " error="@, 0);
                    text::lemma_trim_len(headline.skip(i + " error="@.len()));
                }
                unwrapped_headline(text::trim(headline.skip(i + " error="@.len())))
            },
            None => headline,
        }
    } else {
        headline
    }
}

/// The headline and the next step that a structured failure line stands for.
pub open spec fn humanized(raw: Seq<char>) -> (Seq<char>, Option<Seq<char>>) {
    let message = text::trim(raw);
    match text::rsplit_once(message, "safe-next-command="@) {
        Some((head, tail)) => {
            let hint = text::trim(text::trim_char(text::trim(tail), '`'));
            (
                unwrapped_headline(text::trim(head)),
                if hint.len() == 0 {
                    None
                } else {
                    Some(hint)
                },
            )
        },
        None => (unwrapped_headline(text::trim(message)), None),
    }
}

/// Turns a structured failure line (`phase=… object=… error=… safe-next-command=…`) into a
/// readable headline and an optional next step.
pub fn humanize_error(raw: &str) -> (r: (String, Option<String>))
    ensures
        (r.0@, r.1.deep_view()) == humanized(raw@),
{
    let message = trimmed(raw);
    let head = before_last(&message, "safe-next-command=");
    let tail = after_last(&message, "safe-next-command=");
    let hint = match tail {
        Some(tail) => {
            let hint = trimmed(&trimmed_char(&trimmed(&tail), '`'));
            if hint.as_str().is_empty() {
                None
            } else {
                Some(hint)
            }
        },
        None => None,
    };
    let mut headline = match head {
        Some(head) => trimmed(&head),
        None => trimmed(&message),
    };
    let ghost start = headline@;
    while text_starts_with(&headline, "phase=") || text_starts_with(&headline, "failed-command=")
        || text_starts_with(&headline, "failed-api=")
        invariant_except_break
            unwrapped_headline(start) == unwrapped_headline(headline@),
        ensures
            unwrapped_headline(start) == headline@,
        decreases headline@.len(),
    {
        match after_first(&headline, " error=") {
            Some(rest) => {
                proof {
                    reveal_strlit(" error=");
                    text::lemma_find_from(headline@, " error="@, 0);
                    text::lemma_trim_len(rest@);
                }
                headline = trimmed(&rest);
            },
            None => {
                break;
            },
        }
    }
    (headline, hint)
}

// ---------------------------------------------------------------------------
// Printing reports
// ---------------------------------------------------------------------------

/// `n` spaces in a row.
pub open spec fn spaces(n: nat) -> Seq<char> {
    Seq::new(n, |i: int| ' ')
}

pub fn spaces_text(n: usize) -> (r: String)
    ensures
        r@ == spaces(n as nat),
{
    let mut out = String::new();
    let mut i: usize = 0;
    while i < n
        invariant
            i <= n,
            out@ == spaces(i as nat),
        decreases n - i,
    {
        out.push(' ');
        i = i + 1;
        assert(out@ =~= spaces(i as nat));
    }
    out
}

/// The lines of a labelled section, if there is anything to say.
pub open spec fn section_lines(label: Seq<char>, value: Option<Seq<char>>, color: bool) -> Seq<
    Seq<char>,
> {
    match value {
        None => seq![],
        Some(value) => seq![seq![], heading(label + ":"@, color)] + text::lines(value).map_values(
            |line: Seq<char>| "  "@ + line,
        ),
    }
}

/// A heading, in bold cyan where colour is on.
pub open spec fn heading(text: Seq<char>, color: bool) -> Seq<char> {
    if color {
        "\x1b[1m"@ + ("\x1b[36m"@ + text + "\x1b[39m"@) + "\x1b[0m"@
    } else {
        text
    }
}

fn heading_text(text: &str, color: bool) -> (r: String)
    ensures
        r@ == heading(text@, color),
{
    if color {
        bold(&cyan(text))
    } else {
        text.to_owned()
    }
}

pub fn print_section(label: &str, value: &Option<String>, color: bool) -> (r: Vec<String>)
    ensures
        r.deep_view() == section_lines(label@, value.deep_view(), color),
{
    let mut out: Vec<String> = Vec::new();
    let value = match value {
        Some(value) => value,
        None => {
            assert(out.deep_view() =~= seq![]);
            return out;
        },
    };
    out.push(String::new());
    out.push(heading_text(&cat(label, ":"), color));
    let rows = text_lines(value);
    let mut i: usize = 0;
    while i < rows.len()
        invariant
            i <= rows@.len(),
            rows.deep_view() == text::lines(value@),
            out@.len() == i + 2,
            out@[0]@ == Seq::<char>::empty(),
            out@[1]@ == heading(label@ + ":"@, color),
            forall|k: int| 0 <= k < i ==> (#[trigger] out@[k + 2])@ == "  "@ + rows@[k]@,
        decreases rows@.len() - i,
    {
        out.push(cat("  ", &rows[i]));
        i = i + 1;
    }
    assert(out.deep_view() =~= section_lines(label@, Some(value@), color)) by {
        let want = section_lines(label@, Some(value@), color);
        assert(want.len() == out@.len());
        assert forall|k: int| 0 <= k < want.len() implies out.deep_view()[k] == want[k] by {
            if k >= 2 {
                assert(out@[(k - 2) + 2]@ == "  "@ + rows@[k - 2]@);
                assert(rows.deep_view()[k - 2] == rows@[k - 2]@);
            }
        }
    }
    out
}

/// The length of the longest label of these details.
pub open spec fn label_width(details: Seq<(Seq<char>, Seq<char>)>) -> nat
    decreases details.len(),
{
    if details.len() == 0 {
        0
    } else {
        let rest = label_width(details.drop_last());
        let own = details.last().0.len();
        if own > rest {
            own
        } else {
            rest
        }
    }
}

/// A detail with its value in the column behind the longest label.
pub open spec fn detail_line(detail: (Seq<char>, Seq<char>), width: nat) -> Seq<char> {
    "  "@ + detail.0 + ":"@ + spaces((width - detail.0.len()) as nat) + " "@ + detail.1
}

proof fn lemma_label_width(details: Seq<(Seq<char>, Seq<char>)>, k: int)
    requires
        0 <= k < details.len(),
    ensures
        details[k].0.len() <= label_width(details),
    decreases details.len(),
{
    if k < details.len() - 1 {
        lemma_label_width(details.drop_last(), k);
    }
}

/// The lines of the details section, if there are details.
pub open spec fn details_lines(details: Seq<(Seq<char>, Seq<char>)>, color: bool) -> Seq<
    Seq<char>,
> {
    if details.len() == 0 {
        seq![]
    } else {
        seq![seq![], heading("details:"@, color)] + details.map_values(
            |d: (Seq<char>, Seq<char>)| detail_line(d, label_width(details)),
        )
    }
}

fn widest_label(details: &Vec<Detail>) -> (r: usize)
    ensures
        r == label_width(details.deep_view()),
{
    let mut width: usize = 0;
    let mut i: usize = 0;
    while i < details.len()
        invariant
            i <= details@.len(),
            width == label_width(details.deep_view().take(i as int)),
        decreases details@.len() - i,
    {
        assert(details.deep_view().take(i + 1).drop_last() =~= details.deep_view().take(i as int));
        assert(details.deep_view().take(i + 1).last() == details@[i as int]@);
        let own: usize = char_count(&details[i].key);
        if own > width {
            width = own;
        }
        i = i + 1;
    }
    assert(details.deep_view().take(i as int) =~= details.deep_view());
    width
}

pub fn print_details(details: &Vec<Detail>, color: bool) -> (r: Vec<String>)
    ensures
        r.deep_view() == details_lines(details.deep_view(), color),
{
    let mut out: Vec<String> = Vec::new();
    if details.len() == 0 {
        assert(out.deep_view() =~= seq![]);
        return out;
    }
    out.push(String::new());
    out.push(heading_text("details:", color));
    let width = widest_label(details);
    let mut i: usize = 0;
    while i < details.len()
        invariant
            i <= details@.len(),
            width == label_width(details.deep_view()),
            out@.len() == i + 2,
            out@[0]@ == Seq::<char>::empty(),
            out@[1]@ == heading("details:"@, color),
            forall|k: int|
                0 <= k < i ==> (#[trigger] out@[k + 2])@ == detail_line(
                    details@[k]@,
                    width as nat,
                ),
        decreases details@.len() - i,
    {
        proof {
            lemma_label_width(details.deep_view(), i as int);
        }
        let mut line = "  ".to_owned();
        line.append(&details[i].key);
        line.append(":");
        line.append(&spaces_text(width - char_count(&details[i].key)));
        line.append(" ");
        line.append(&details[i].value);
        out.push(line);
        i = i + 1;
    }
    assert(out.deep_view() =~= details_lines(details.deep_view(), color)) by {
        let want = details_lines(details.deep_view(), color);
        assert(want.len() == out@.len());
        assert forall|k: int| 0 <= k < want.len() implies out.deep_view()[k] == want[k] by {
            if k >= 2 {
                assert(out@[(k - 2) + 2]@ == detail_line(details@[k - 2]@, width as nat));
                assert(details.deep_view()[k - 2] == details@[k - 2]@);
            }
        }
    }
    out
}

pub open spec fn error_line(message: Seq<char>, color: bool) -> Seq<char> {
    if color {
        "\x1b[1m"@ + ("\x1b[31m"@ + "error:"@ + "\x1b[39m"@) + "\x1b[0m"@ + " "@ + message
    } else {
        "error: "@ + message
    }
}

pub fn print_error_line(message: &str, color: bool) -> (r: String)
    ensures
        r@ == error_line(message@, color),
{
    if color {
        let mut line = bold(&red("error:"));
        line.append(" ");
        line.append(message);
        line
    } else {
        cat("error: ", message)
    }
}

/// The report of a failure with the place of the debug log in its details.
pub open spec fn logged_report(causes: Seq<CauseView>, debug_log: Option<Seq<char>>) -> CliErrorView {
    let report = chain_report(causes);
    match debug_log {
        None => report,
        Some(path) => CliErrorView {
            details: report.details.filter(
                |d: (Seq<char>, Seq<char>)| d.0 != "debug log"@ && d.0 != "log"@,
            ).push(("debug log"@, path)),
            ..report
        },
    }
}

/// Everything that is printed of a failure.
pub open spec fn report_lines(report: CliErrorView, color: bool) -> Seq<Seq<char>> {
    seq![error_line(report.message, color)] + section_lines("reason"@, report.reason, color)
        + section_lines("resolution"@, report.resolution, color) + details_lines(
        report.details,
        color,
    )
}

fn without_log_details(details: &Vec<Detail>) -> (r: Vec<Detail>)
    ensures
        r.deep_view() == details.deep_view().filter(
            |d: (Seq<char>, Seq<char>)| d.0 != "debug log"@ && d.0 != "log"@,
        ),
{
    let mut out: Vec<Detail> = Vec::new();
    let mut i: usize = 0;
    let ghost keep = |d: (Seq<char>, Seq<char>)| d.0 != "debug log"@ && d.0 != "log"@;
    assert(details.deep_view().take(0).filter(keep) =~= seq![]) by {
        reveal(Seq::filter);
    }
    while i < details.len()
        invariant
            i <= details@.len(),
            keep == (|d: (Seq<char>, Seq<char>)| d.0 != "debug log"@ && d.0 != "log"@),
            out.deep_view() == details.deep_view().take(i as int).filter(keep),
        decreases details@.len() - i,
    {
        let ghost before = out.deep_view();
        let ghost next = details.deep_view().take(i + 1);
        assert(next.drop_last() =~= details.deep_view().take(i as int));
        assert(next.last() == details@[i as int]@);
        assert(next.filter(keep) == if keep(next.last()) {
            next.drop_last().filter(keep).push(next.last())
        } else {
            next.drop_last().filter(keep)
        }) by {
            reveal(Seq::filter);
        }
        if !same(&details[i].key, "debug log") && !same(&details[i].key, "log") {
            out.push(Detail { key: details[i].key.clone(), value: details[i].value.clone() });
            assert(out.deep_view() =~= before.push(details@[i as int]@));
        }
        i = i + 1;
    }
    assert(details.deep_view().take(i as int) =~= details.deep_view());
    out
}

/// The lines that report a failure, with the place of the debug log where there is one.
pub fn render_cli_error(error: &Error, debug_log: Option<&str>, color: bool) -> (r: Vec<String>)
    ensures
        r.deep_view() == report_lines(
            logged_report(
                error@,
                match debug_log {
                    Some(path) => Some(path@),
                    None => None,
                },
            ),
            color,
        ),
{
    let mut diagnostic = diagnostic_from_error(error);
    if let Some(path) = debug_log {
        let mut details = without_log_details(&diagnostic.details);
        let ghost before = details.deep_view();
        details.push(Detail { key: "debug log".to_owned(), value: path.to_owned() });
        assert(details.deep_view() =~= before.push(("debug log"@, path@)));
        diagnostic.details = details;
    }
    let mut out: Vec<String> = Vec::new();
    out.push(print_error_line(&diagnostic.message, color));
    let mut reason = print_section("reason", &diagnostic.reason, color);
    let mut resolution = print_section("resolution", &diagnostic.resolution, color);
    let mut details = print_details(&diagnostic.details, color);
    let ghost parts = (out.deep_view(), reason.deep_view(), resolution.deep_view(), details.deep_view());
    out.append(&mut reason);
    out.append(&mut resolution);
    out.append(&mut details);
    assert(out.deep_view() =~= parts.0 + parts.1 + parts.2 + parts.3);
    out
}

} // verus!
