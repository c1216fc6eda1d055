//! Save targets, save results, and the run that saves one screenshot to
//! every enabled target.

use vstd::prelude::*;
use crate::config::{opt_view, AppConfig};
use crate::local::{destination_valid, destination_view, image_destination, ImageDestination};

verus! {

/// Where a screenshot can be saved.
#[derive(Clone, Copy, Debug, PartialEq, Eq, Structural)]
pub enum SaveTargetType {
    Clipboard,
    LocalFile,
    Markdown,
}

/// One configured save target.
#[derive(Clone, Debug)]
pub struct SaveTarget {
    pub target_type: SaveTargetType,
    pub path: Option<String>,
    pub enabled: bool,
}

/// The outcome of saving to one target.
#[derive(Debug)]
pub struct SaveResult {
    pub target: String,
    pub success: bool,
    pub path: Option<String>,
    pub error: Option<String>,
}

/// The mathematical content of a save result.
pub struct ResultView {
    pub target: Seq<char>,
    pub success: bool,
    pub path: Option<Seq<char>>,
    pub error: Option<Seq<char>>,
}

impl View for SaveResult {
    type V = ResultView;

    open spec fn view(&self) -> ResultView {
        ResultView {
            target: self.target@,
            success: self.success,
            path: opt_view(self.path),
            error: opt_view(self.error),
        }
    }
}

/// A success on `target`, with the saved file's path where there is one.
pub open spec fn success_view(target: Seq<char>, path: Option<Seq<char>>) -> ResultView {
    ResultView { target, success: true, path, error: None }
}

/// A failure on `target` with the message `error`.
pub open spec fn failure_view(target: Seq<char>, error: Seq<char>) -> ResultView {
    ResultView { target, success: false, path: None, error: Some(error) }
}

/// A result is consistent: it succeeded exactly when it carries no error; a
/// failure and a clipboard result carry no path, and a success on a file
/// target (the local folder or Markdown) carries the saved file's path.
pub open spec fn consistent(r: ResultView) -> bool {
    &&& r.success <==> r.error is None
    &&& !r.success ==> r.path is None
    &&& r.target == "Clipboard"@ ==> r.path is None
    &&& (r.success && r.target != "Clipboard"@) ==> r.path is Some
}

impl SaveResult {
    pub fn success(target: &str) -> (r: Self)
        ensures
            r@ == success_view(target@, None),
    {
        SaveResult { target: String::from_str(target), success: true, path: None, error: None }
    }

    pub fn success_with_path(target: &str, path: String) -> (r: Self)
        ensures
            r@ == success_view(target@, Some(path@)),
    {
        SaveResult {
            target: String::from_str(target),
            success: true,
            path: Some(path),
            error: None,
        }
    }

    pub fn error(target: &str, error: String) -> (r: Self)
        ensures
            r@ == failure_view(target@, error@),
    {
        SaveResult {
            target: String::from_str(target),
            success: false,
            path: None,
            error: Some(error),
        }
    }
}

/// The name a result gives its target.
pub open spec fn label(t: SaveTargetType) -> Seq<char> {
    match t {
        SaveTargetType::Clipboard => "Clipboard"@,
        SaveTargetType::LocalFile => "LocalFile"@,
        SaveTargetType::Markdown => "Markdown"@,
    }
}

fn label_of(t: SaveTargetType) -> (s: &'static str)
    ensures
        s@ == label(t),
{
    match t {
        SaveTargetType::Clipboard => "Clipboard",
        SaveTargetType::LocalFile => "LocalFile",
        SaveTargetType::Markdown => "Markdown",
    }
}

/// The message of a Markdown target when no Markdown file is configured.
pub open spec fn no_markdown_message() -> Seq<char> {
    "No markdown path configured"@
}

/// The outside work that a save run asks of the application next.
pub enum SaveAction {
    /// Copy the screenshot to the clipboard.
    CopyToClipboard,
    /// Create the folder `dir` and write the screenshot to the file `file`.
    SaveImage { dir: String, file: String },
    /// Add a reference to the saved image to the Markdown file.
    AppendMarkdown { md_path: String, image_path: String },
    /// Nothing more: every target has its result.
    Finished,
}

/// The mathematical content of a save action.
pub enum ActionView {
    CopyToClipboard,
    SaveImage { dir: Seq<char>, file: Seq<char> },
    AppendMarkdown { md_path: Seq<char>, image_path: Seq<char> },
    Finished,
}

impl View for SaveAction {
    type V = ActionView;

    open spec fn view(&self) -> ActionView {
        match self {
            SaveAction::CopyToClipboard => ActionView::CopyToClipboard,
            SaveAction::SaveImage { dir, file } => ActionView::SaveImage { dir: dir@, file: file@ },
            SaveAction::AppendMarkdown { md_path, image_path } => ActionView::AppendMarkdown {
                md_path: md_path@,
                image_path: image_path@,
            },
            SaveAction::Finished => ActionView::Finished,
        }
    }
}

/// What the application reports back after doing the asked work.
pub enum SaveEvent {
    /// The clipboard copy finished, or failed with a message.
    Copied(Result<(), String>),
    /// The image file was written where asked, or writing failed with a message.
    ImageSaved(Result<(), String>),
    /// The Markdown reference was appended, or failed with a message.
    Appended(Result<(), String>),
}

/// Where a save run stands.
pub enum Stage {
    /// Between targets.
    Ready,
    /// Waiting for a clipboard copy.
    AwaitingCopy,
    /// Waiting for the image file `file` of a local-file target.
    AwaitingImage { file: String },
    /// Waiting for the image file `file` of a Markdown target.
    AwaitingMarkdownImage { file: String },
    /// Waiting for the Markdown reference to the saved image.
    AwaitingAppend { image_path: String },
}

/// The mathematical content of a stage.
pub enum StageView {
    Ready,
    AwaitingCopy,
    AwaitingImage { file: Seq<char> },
    AwaitingMarkdownImage { file: Seq<char> },
    AwaitingAppend { image_path: Seq<char> },
}

impl View for Stage {
    type V = StageView;

    open spec fn view(&self) -> StageView {
        match self {
            Stage::Ready => StageView::Ready,
            Stage::AwaitingCopy => StageView::AwaitingCopy,
            Stage::AwaitingImage { file } => StageView::AwaitingImage { file: file@ },
            Stage::AwaitingMarkdownImage { file } => StageView::AwaitingMarkdownImage {
                file: file@,
            },
            Stage::AwaitingAppend { image_path } => StageView::AwaitingAppend {
                image_path: image_path@,
            },
        }
    }
}

/// The state of a save run: the next target to look at, the stage, the
/// results so far, and the sequence number of the next image file.
pub struct RunView {
    pub next: nat,
    pub stage: StageView,
    pub results: Seq<ResultView>,
    pub seq: u32,
}

/// The views of a sequence of results.
pub open spec fn result_views(v: Seq<SaveResult>) -> Seq<ResultView> {
    v.map_values(|r: SaveResult| r@)
}

/// The sequence number after `n`, wrapping around.
pub open spec fn next_seq(n: u32) -> u32 {
    if n + 1 > u32::MAX {
        (n + 1 - 0x1_0000_0000) as u32
    } else {
        (n + 1) as u32
    }
}

/// The sequence number `k` places after `n`.
pub open spec fn seq_after(n: u32, k: nat) -> u32
    decreases k,
{
    if k == 0 {
        n
    } else {
        next_seq(seq_after(n, (k - 1) as nat))
    }
}

/// Each of `dests` is a destination under `cfg` for the sequence numbers
/// from `seq` on, in order.
pub open spec fn dests_valid(
    cfg: AppConfig,
    seq: u32,
    dests: Seq<Result<(Seq<char>, Seq<char>), Seq<char>>>,
) -> bool {
    forall|k: int| 0 <= k < dests.len() ==> #[trigger] destination_valid(cfg, seq_after(seq, k as nat), dests[k])
}

/// `file` is where the configuration puts some image: the expanded save
/// folder joined with the file name template filled in for some sequence
/// number and some instant.
pub open spec fn is_destination_file(cfg: AppConfig, file: Seq<char>) -> bool {
    exists|n: u32, dir: Seq<char>| destination_valid(cfg, n, Ok((dir, file)))
}

/// From target `i` on, with `results` so far, the sequence number `seq` of
/// the next image file, and `dests` the destinations that image naming gives
/// in turn: skip disabled targets; answer a Markdown target without a
/// configured file at once with `No markdown path configured`; for a local
/// file or a Markdown target take the next destination, numbered `seq`, and
/// answer the target with its error, or ask for the image to be written
/// there; stop at the first target that needs outside work, asking for it;
/// past the last target the run is finished. Where `dests` runs out before
/// an image target, the run stays before that target.
pub open spec fn advance(
    cfg: AppConfig,
    i: nat,
    results: Seq<ResultView>,
    seq: u32,
    dests: Seq<Result<(Seq<char>, Seq<char>), Seq<char>>>,
) -> (RunView, ActionView)
    decreases cfg.save_targets@.len() - i,
{
    if i >= cfg.save_targets@.len() {
        (RunView { next: i, stage: StageView::Ready, results, seq }, ActionView::Finished)
    } else {
        let t = cfg.save_targets@[i as int];
        if !t.enabled {
            advance(cfg, i + 1, results, seq, dests)
        } else if t.target_type == SaveTargetType::Clipboard {
            (
                RunView { next: i + 1, stage: StageView::AwaitingCopy, results, seq },
                ActionView::CopyToClipboard,
            )
        } else if t.target_type == SaveTargetType::Markdown && cfg.markdown_path is None {
            advance(
                cfg,
                i + 1,
                results.push(failure_view("Markdown"@, no_markdown_message())),
                seq,
                dests,
            )
        } else if dests.len() == 0 {
            (RunView { next: i, stage: StageView::Ready, results, seq }, ActionView::Finished)
        } else {
            match dests[0] {
                Err(e) => advance(
                    cfg,
                    i + 1,
                    results.push(failure_view(label(t.target_type), e)),
                    next_seq(seq),
                    dests.drop_first(),
                ),
                Ok((dir, file)) => (
                    RunView {
                        next: i + 1,
                        stage: if t.target_type == SaveTargetType::LocalFile {
                            StageView::AwaitingImage { file }
                        } else {
                            StageView::AwaitingMarkdownImage { file }
                        },
                        results,
                        seq: next_seq(seq),
                    },
                    ActionView::SaveImage { dir, file },
                ),
            }
        }
    }
}

/// The event answers the work that the stage waits for.
pub open spec fn accepts_spec(stage: StageView, ev: SaveEvent) -> bool {
    match stage {
        StageView::Ready => false,
        StageView::AwaitingCopy => ev is Copied,
        StageView::AwaitingImage { .. } => ev is ImageSaved,
        StageView::AwaitingMarkdownImage { .. } => ev is ImageSaved,
        StageView::AwaitingAppend { .. } => ev is Appended,
    }
}

/// The result for the clipboard, the local file or the Markdown file from
/// the reported outcome, then on to the next target; a saved image's result
/// carries the file it was asked to be written to; a Markdown image that was
/// saved is referenced from the Markdown file before its result is known.
pub open spec fn after(
    cfg: AppConfig,
    s: RunView,
    ev: SaveEvent,
    dests: Seq<Result<(Seq<char>, Seq<char>), Seq<char>>>,
) -> (RunView, ActionView) {
    match (s.stage, ev) {
        (StageView::AwaitingCopy, SaveEvent::Copied(Ok(_))) => advance(
            cfg,
            s.next,
            s.results.push(success_view("Clipboard"@, None)),
            s.seq,
            dests,
        ),
        (StageView::AwaitingCopy, SaveEvent::Copied(Err(e))) => advance(
            cfg,
            s.next,
            s.results.push(failure_view("Clipboard"@, e@)),
            s.seq,
            dests,
        ),
        (StageView::AwaitingImage { file }, SaveEvent::ImageSaved(Ok(_))) => advance(
            cfg,
            s.next,
            s.results.push(success_view("LocalFile"@, Some(file))),
            s.seq,
            dests,
        ),
        (StageView::AwaitingImage { .. }, SaveEvent::ImageSaved(Err(e))) => advance(
            cfg,
            s.next,
            s.results.push(failure_view("LocalFile"@, e@)),
            s.seq,
            dests,
        ),
        (StageView::AwaitingMarkdownImage { file }, SaveEvent::ImageSaved(Ok(_))) => (
            RunView {
                next: s.next,
                stage: StageView::AwaitingAppend { image_path: file },
                results: s.results,
                seq: s.seq,
            },
            ActionView::AppendMarkdown {
                md_path: opt_view(cfg.markdown_path).unwrap(),
                image_path: file,
            },
        ),
        (StageView::AwaitingMarkdownImage { .. }, SaveEvent::ImageSaved(Err(e))) => advance(
            cfg,
            s.next,
            s.results.push(failure_view("Markdown"@, e@)),
            s.seq,
            dests,
        ),
        (StageView::AwaitingAppend { image_path }, SaveEvent::Appended(Ok(_))) => advance(
            cfg,
            s.next,
            s.results.push(success_view("Markdown"@, Some(image_path))),
            s.seq,
            dests,
        ),
        (StageView::AwaitingAppend { .. }, SaveEvent::Appended(Err(e))) => advance(
            cfg,
            s.next,
            s.results.push(failure_view("Markdown"@, e@)),
            s.seq,
            dests,
        ),
        _ => (s, ActionView::Finished),
    }
}

/// The names of the enabled targets among `ts`, in order.
pub open spec fn enabled_labels(ts: Seq<SaveTarget>) -> Seq<Seq<char>>
    decreases ts.len(),
{
    if ts.len() == 0 {
        Seq::empty()
    } else if ts.last().enabled {
        enabled_labels(ts.drop_last()).push(label(ts.last().target_type))
    } else {
        enabled_labels(ts.drop_last())
    }
}

/// The target names of a sequence of results.
pub open spec fn labels(rs: Seq<ResultView>) -> Seq<Seq<char>> {
    rs.map_values(|r: ResultView| r.target)
}

/// The stage waits on the target `t`, and an image it waits for is to be
/// written where the configuration puts images.
pub open spec fn stage_fits(cfg: AppConfig, stage: StageView, t: SaveTarget) -> bool {
    &&& t.enabled
    &&& match stage {
        StageView::Ready => true,
        StageView::AwaitingCopy => t.target_type == SaveTargetType::Clipboard,
        StageView::AwaitingImage { file } => t.target_type == SaveTargetType::LocalFile
            && is_destination_file(cfg, file),
        StageView::AwaitingMarkdownImage { file } => t.target_type == SaveTargetType::Markdown
            && cfg.markdown_path is Some && is_destination_file(cfg, file),
        StageView::AwaitingAppend { image_path } => t.target_type == SaveTargetType::Markdown
            && cfg.markdown_path is Some && is_destination_file(cfg, image_path),
    }
}

/// A result recorded under `cfg` is consistent, and a saved image's path is
/// where the configuration puts images.
pub open spec fn result_fits(cfg: AppConfig, r: ResultView) -> bool {
    &&& consistent(r)
    &&& (r.success && r.target != "Clipboard"@) ==> is_destination_file(cfg, r.path.unwrap())
}

/// The invariant of a save run: every result fits; between targets the
/// results name exactly the enabled targets before `next`, in order; while
/// waiting, they name those before the target waited on.
pub open spec fn run_invariant(cfg: AppConfig, s: RunView) -> bool {
    let ts = cfg.save_targets@;
    &&& s.next <= ts.len()
    &&& forall|k: int| 0 <= k < s.results.len() ==> #[trigger] result_fits(cfg, s.results[k])
    &&& match s.stage {
        StageView::Ready => labels(s.results) == enabled_labels(ts.take(s.next as int)),
        _ => {
            &&& s.next >= 1
            &&& stage_fits(cfg, s.stage, ts[s.next - 1])
            &&& labels(s.results) == enabled_labels(ts.take(s.next - 1))
        },
    }
}

/// A measure of the work left: three per target not yet looked at, plus
/// what the stage still waits for.
pub open spec fn work_left(cfg: AppConfig, s: RunView) -> int {
    3 * (cfg.save_targets@.len() - s.next) + match s.stage {
        StageView::Ready => 0int,
        StageView::AwaitingMarkdownImage { .. } => 2int,
        _ => 1int,
    }
}

/// `d` is a destination under `cfg` for some sequence number.
pub open spec fn somewhere(cfg: AppConfig, d: Result<(Seq<char>, Seq<char>), Seq<char>>) -> bool {
    exists|n: u32| destination_valid(cfg, n, d)
}

/// Every one of `dests` is a destination under `cfg` for some sequence number.
pub open spec fn dests_somewhere(
    cfg: AppConfig,
    dests: Seq<Result<(Seq<char>, Seq<char>), Seq<char>>>,
) -> bool {
    forall|k: int| 0 <= k < dests.len() ==> #[trigger] somewhere(cfg, dests[k])
}

proof fn lemma_dests_somewhere(
    cfg: AppConfig,
    seq: u32,
    dests: Seq<Result<(Seq<char>, Seq<char>), Seq<char>>>,
)
    requires
        dests_valid(cfg, seq, dests),
    ensures
        dests_somewhere(cfg, dests),
{
    assert forall|k: int| 0 <= k < dests.len() implies #[trigger] somewhere(cfg, dests[k]) by {
        assert(destination_valid(cfg, seq_after(seq, k as nat), dests[k]));
    }
}

/// Advancing from a state where the results name the enabled targets before
/// `i` keeps the run invariant.
proof fn lemma_advance(
    cfg: AppConfig,
    i: nat,
    results: Seq<ResultView>,
    seq: u32,
    dests: Seq<Result<(Seq<char>, Seq<char>), Seq<char>>>,
)
    requires
        i <= cfg.save_targets@.len(),
        forall|k: int| 0 <= k < results.len() ==> #[trigger] result_fits(cfg, results[k]),
        labels(results) == enabled_labels(cfg.save_targets@.take(i as int)),
        dests_somewhere(cfg, dests),
    ensures
        run_invariant(cfg, advance(cfg, i, results, seq, dests).0),
    decreases cfg.save_targets@.len() - i,
{
    let ts = cfg.save_targets@;
    if i < ts.len() {
        let t = ts[i as int];
        assert(ts.take(i + 1int).drop_last() =~= ts.take(i as int));
        assert(ts.take(i + 1int).last() == t);
        if !t.enabled {
            lemma_advance(cfg, i + 1, results, seq, dests);
        } else if t.target_type == SaveTargetType::Clipboard {
        } else if t.target_type == SaveTargetType::Markdown && cfg.markdown_path is None {
            let r2 = results.push(failure_view("Markdown"@, no_markdown_message()));
            assert(labels(r2) =~= labels(results).push(label(t.target_type)));
            assert forall|k: int| 0 <= k < r2.len() implies #[trigger] result_fits(cfg, r2[k]) by {
                if k < results.len() {
                    assert(r2[k] == results[k]);
                }
            }
            lemma_advance(cfg, i + 1, r2, seq, dests);
        } else if dests.len() > 0 {
            assert(somewhere(cfg, dests[0]));
            match dests[0] {
                Err(e) => {
                    let r2 = results.push(failure_view(label(t.target_type), e));
                    assert(labels(r2) =~= labels(results).push(label(t.target_type)));
                    assert forall|k: int| 0 <= k < r2.len() implies #[trigger] result_fits(
                        cfg,
                        r2[k],
                    ) by {
                        if k < results.len() {
                            assert(r2[k] == results[k]);
                        }
                    }
                    let rest = dests.drop_first();
                    assert forall|k: int| 0 <= k < rest.len() implies #[trigger] somewhere(
                        cfg,
                        rest[k],
                    ) by {
                        assert(rest[k] == dests[k + 1]);
                        assert(somewhere(cfg, dests[k + 1]));
                    }
                    lemma_advance(cfg, i + 1, r2, next_seq(seq), rest);
                },
                Ok((dir, file)) => {
                    let n = choose|n: u32| destination_valid(cfg, n, dests[0]);
                    assert(destination_valid(cfg, n, Ok((dir, file))));
                    assert(is_destination_file(cfg, file));
                },
            }
        }
    }
}

/// A run of saving one screenshot to every enabled target of a configuration.
pub struct SaveSession<'a> {
    config: &'a AppConfig,
    next: usize,
    stage: Stage,
    results: Vec<SaveResult>,
    seq: u32,
}

impl<'a> View for SaveSession<'a> {
    type V = RunView;

    closed spec fn view(&self) -> RunView {
        RunView {
            next: self.next as nat,
            stage: self.stage@,
            results: result_views(self.results@),
            seq: self.seq,
        }
    }
}

impl<'a> SaveSession<'a> {
    /// The configuration the run saves by.
    pub closed spec fn config(&self) -> AppConfig {
        *self.config
    }

    /// The run is in a reachable state.
    pub closed spec fn wf(&self) -> bool {
        run_invariant(*self.config, self@)
    }

    /// The run is over.
    pub open spec fn finished(&self) -> bool {
        self@.stage is Ready && self@.next == self.config().save_targets@.len()
    }

    fn advance_run(&mut self) -> (a: SaveAction)
        requires
            old(self)@.stage is Ready,
            old(self)@.next <= old(self).config().save_targets@.len(),
        ensures
            final(self).config() == old(self).config(),
            exists|dests: Seq<Result<(Seq<char>, Seq<char>), Seq<char>>>|
                {
                    &&& dests_valid(old(self).config(), old(self)@.seq, dests)
                    &&& (final(self)@, a@) == advance(
                        old(self).config(),
                        old(self)@.next,
                        old(self)@.results,
                        old(self)@.seq,
                        dests,
                    )
                },
            a is Finished <==> final(self)@.stage is Ready,
            a is Finished ==> final(self)@.next == old(self).config().save_targets@.len(),
            !(a is Finished) ==> final(self)@.next > old(self)@.next,
    {
        let n = self.config.save_targets.len();
        let ghost cfg = *self.config;
        let ghost i0 = self@.next;
        let ghost r0 = self@.results;
        let ghost seq0 = self@.seq;
        let ghost mut done: Seq<Result<(Seq<char>, Seq<char>), Seq<char>>> = Seq::empty();
        assert forall|rest: Seq<Result<(Seq<char>, Seq<char>), Seq<char>>>| #[trigger] advance(
            cfg,
            i0,
            r0,
            seq0,
            done + rest,
        ) == advance(cfg, self@.next, self@.results, self@.seq, rest) by {
            assert(done + rest =~= rest);
        }
        while self.next < n
            invariant
                n == cfg.save_targets@.len(),
                *self.config == cfg,
                cfg == old(self).config(),
                i0 == old(self)@.next,
                r0 == old(self)@.results,
                seq0 == old(self)@.seq,
                i0 <= self.next <= n,
                self.stage@ is Ready,
                dests_valid(cfg, seq0, done),
                self.seq == seq_after(seq0, done.len()),
                forall|rest: Seq<Result<(Seq<char>, Seq<char>), Seq<char>>>| #[trigger] advance(
                    cfg,
                    i0,
                    r0,
                    seq0,
                    done + rest,
                ) == advance(cfg, self@.next, self@.results, self@.seq, rest),
            decreases n - self.next,
        {
            let i = self.next;
            let ghost cur = self@;
            let enabled = self.config.save_targets[i].enabled;
            let kind = self.config.save_targets[i].target_type;
            if !enabled {
                self.next = i + 1;
            } else {
                match kind {
                    SaveTargetType::Clipboard => {
                        self.next = i + 1;
                        self.stage = Stage::AwaitingCopy;
                        proof {
                            let rest = Seq::<Result<(Seq<char>, Seq<char>), Seq<char>>>::empty();
                            assert(done + rest =~= done);
                            assert(advance(cfg, i0, r0, seq0, done + rest) == advance(
                                cfg,
                                i as nat,
                                cur.results,
                                cur.seq,
                                rest,
                            ));
                        }
                        return SaveAction::CopyToClipboard;
                    },
                    _ => {
                        if kind == SaveTargetType::Markdown && self.config.markdown_path.is_none() {
                            let ghost before = self@.results;
                            let r = SaveResult::error(
                                "Markdown",
                                String::from_str("No markdown path configured"),
                            );
                            self.results.push(r);
                            assert(self@.results =~= before.push(
                                failure_view("Markdown"@, no_markdown_message()),
                            ));
                            self.next = i + 1;
                        } else {
                            let ghost before = self@.results;
                            let ghost seq_before = self.seq;
                            let dest = image_destination(self.config, self.seq);
                            let ghost dv = destination_view(dest);
                            proof {
                                assert(done.push(dv).len() == done.len() + 1);
                                assert forall|k: int| 0 <= k < done.push(dv).len() implies #[trigger] destination_valid(
                                    cfg,
                                    seq_after(seq0, k as nat),
                                    done.push(dv)[k],
                                ) by {
                                    if k < done.len() {
                                        assert(done.push(dv)[k] == done[k]);
                                    }
                                }
                                assert forall|rest: Seq<Result<(Seq<char>, Seq<char>), Seq<char>>>| #[trigger] advance(
                                    cfg,
                                    i0,
                                    r0,
                                    seq0,
                                    done.push(dv) + rest,
                                ) == advance(cfg, i as nat, before, seq_before, seq![dv] + rest) by {
                                    assert(done.push(dv) + rest =~= done + (seq![dv] + rest));
                                }
                                done = done.push(dv);
                            }
                            self.seq = self.seq.wrapping_add(1);
                            self.next = i + 1;
                            match dest {
                                Err(e) => {
                                    let r = SaveResult::error(label_of(kind), e);
                                    self.results.push(r);
                                    assert(self@.results =~= before.push(r@));
                                    assert forall|rest: Seq<Result<(Seq<char>, Seq<char>), Seq<char>>>| #[trigger] advance(
                                        cfg,
                                        i0,
                                        r0,
                                        seq0,
                                        done + rest,
                                    ) == advance(cfg, self@.next, self@.results, self@.seq, rest) by {
                                        assert((seq![dv] + rest).drop_first() =~= rest);
                                        assert((seq![dv] + rest)[0] == dv);
                                    }
                                },
                                Ok(d) => {
                                    let ImageDestination { dir, file } = d;
                                    let f2 = file.clone();
                                    if kind == SaveTargetType::LocalFile {
                                        self.stage = Stage::AwaitingImage { file: f2 };
                                    } else {
                                        self.stage = Stage::AwaitingMarkdownImage { file: f2 };
                                    }
                                    proof {
                                        let rest = Seq::<Result<(Seq<char>, Seq<char>), Seq<char>>>::empty();
                                        assert(done + rest =~= done);
                                        assert((seq![dv] + rest)[0] == dv);
                                        assert(advance(cfg, i0, r0, seq0, done + rest) == advance(
                                            cfg,
                                            i as nat,
                                            before,
                                            seq_before,
                                            seq![dv] + rest,
                                        ));
                                        assert(seq![dv] + rest =~= seq![dv]);
                                    }
                                    let act = SaveAction::SaveImage { dir, file };
                                    proof {
                                        let one = seq![dv];
                                        assert(one.len() == 1 && one[0] == dv);
                                        assert(cfg.save_targets@[i as int].enabled);
                                        assert(cfg.save_targets@[i as int].target_type == kind);
                                        assert(advance(cfg, i as nat, before, seq_before, one) == (
                                            self@,
                                            act@,
                                        ));
                                        assert(advance(cfg, i0, r0, seq0, done) == (self@, act@));
                                        assert(dests_valid(cfg, seq0, done));
                                        assert(dests_valid(old(self).config(), old(self)@.seq, done));
                                    }
                                    return act;
                                },
                            }
                        }
                    },
                }
            }
        }
        proof {
            let rest = Seq::<Result<(Seq<char>, Seq<char>), Seq<char>>>::empty();
            assert(done + rest =~= done);
            assert(advance(cfg, i0, r0, seq0, done + rest) == advance(
                cfg,
                self@.next,
                self@.results,
                self@.seq,
                rest,
            ));
        }
        SaveAction::Finished
    }

    /// Whether `ev` answers the work the run waits for.
    pub fn accepts(&self, ev: &SaveEvent) -> (b: bool)
        ensures
            b == accepts_spec(self@.stage, *ev),
    {
        match (&self.stage, ev) {
            (Stage::AwaitingCopy, SaveEvent::Copied(_)) => true,
            (Stage::AwaitingImage { .. }, SaveEvent::ImageSaved(_)) => true,
            (Stage::AwaitingMarkdownImage { .. }, SaveEvent::ImageSaved(_)) => true,
            (Stage::AwaitingAppend { .. }, SaveEvent::Appended(_)) => true,
            _ => false,
        }
    }

    /// The sequence number the next image file of this run will carry.
    pub fn sequence_number(&self) -> (n: u32)
        ensures
            n == self@.seq,
    {
        self.seq
    }

    /// Takes in the outcome of the asked work and returns the next work to do.
    pub fn step(&mut self, ev: SaveEvent) -> (a: SaveAction)
        requires
            old(self).wf(),
            accepts_spec(old(self)@.stage, ev),
        ensures
            final(self).wf(),
            final(self).config() == old(self).config(),
            exists|dests: Seq<Result<(Seq<char>, Seq<char>), Seq<char>>>|
                {
                    &&& dests_valid(old(self).config(), old(self)@.seq, dests)
                    &&& (final(self)@, a@) == after(old(self).config(), old(self)@, ev, dests)
                },
            a is Finished <==> final(self).finished(),
            a is Finished || work_left(final(self).config(), final(self)@) < work_left(
                old(self).config(),
                old(self)@,
            ),
    {
        let ghost cfg = *self.config;
        let ghost s0 = self@;
        let mut stage = Stage::Ready;
        std::mem::swap(&mut stage, &mut self.stage);
        let ghost before = self@.results;
        let r = match (stage, ev) {
            (Stage::AwaitingCopy, SaveEvent::Copied(Ok(()))) => SaveResult::success("Clipboard"),
            (Stage::AwaitingCopy, SaveEvent::Copied(Err(e))) => SaveResult::error("Clipboard", e),
            (Stage::AwaitingImage { file }, SaveEvent::ImageSaved(Ok(()))) => {
                SaveResult::success_with_path("LocalFile", file)
            },
            (Stage::AwaitingImage { file: _ }, SaveEvent::ImageSaved(Err(e))) => SaveResult::error(
                "LocalFile",
                e,
            ),
            (Stage::AwaitingMarkdownImage { file }, SaveEvent::ImageSaved(Ok(()))) => {
                let md = match &self.config.markdown_path {
                    Some(m) => m.clone(),
                    None => String::new(),
                };
                let img = file.clone();
                self.stage = Stage::AwaitingAppend { image_path: file };
                proof {
                    let dests = Seq::<Result<(Seq<char>, Seq<char>), Seq<char>>>::empty();
                    assert(dests_valid(cfg, s0.seq, dests));
                }
                return SaveAction::AppendMarkdown { md_path: md, image_path: img };
            },
            (Stage::AwaitingMarkdownImage { file: _ }, SaveEvent::ImageSaved(Err(e))) => {
                SaveResult::error("Markdown", e)
            },
            (Stage::AwaitingAppend { image_path }, SaveEvent::Appended(Ok(()))) => {
                SaveResult::success_with_path("Markdown", image_path)
            },
            (Stage::AwaitingAppend { image_path: _ }, SaveEvent::Appended(Err(e))) => {
                SaveResult::error("Markdown", e)
            },
            // excluded by the precondition: the event answers the stage
            (_, _) => SaveResult::success("Clipboard"),
        };
        proof {
            reveal_strlit("Clipboard");
            reveal_strlit("LocalFile");
            reveal_strlit("Markdown");
            assert("LocalFile"@ != "Clipboard"@) by {
                assert("LocalFile"@[0] != "Clipboard"@[0]);
            }
            assert("Markdown"@ != "Clipboard"@) by {
                assert("Markdown"@[0] != "Clipboard"@[0]);
            }
            assert(result_fits(cfg, r@));
        }
        self.results.push(r);
        assert(self@.results =~= before.push(r@));
        let ghost mid = self@;
        proof {
            let ts = cfg.save_targets@;
            assert forall|k: int| 0 <= k < self@.results.len() implies #[trigger] result_fits(
                cfg,
                self@.results[k],
            ) by {
                if k < before.len() {
                    assert(self@.results[k] == before[k]);
                }
            }
            assert(ts.take(s0.next as int).drop_last() =~= ts.take(s0.next - 1));
            assert(labels(self@.results) =~= labels(before).push(r@.target));
        }
        let a = self.advance_run();
        proof {
            let dests = choose|dests: Seq<Result<(Seq<char>, Seq<char>), Seq<char>>>|
                {
                    &&& dests_valid(cfg, mid.seq, dests)
                    &&& (self@, a@) == advance(cfg, mid.next, mid.results, mid.seq, dests)
                };
            lemma_dests_somewhere(cfg, mid.seq, dests);
            lemma_advance(cfg, mid.next, mid.results, mid.seq, dests);
            assert((self@, a@) == after(cfg, s0, ev, dests));
        }
        a
    }

    /// The results so far, one per enabled target already handled, in order.
    pub fn results(&self) -> (r: &Vec<SaveResult>)
        ensures
            result_views(r@) == self@.results,
    {
        &self.results
    }

    /// The results, ending the run.
    pub fn into_results(self) -> (r: Vec<SaveResult>)
        ensures
            result_views(r@) == self@.results,
    {
        self.results
    }
}

/// Starts saving a screenshot to every enabled target of `config`, in order,
/// naming image files from the sequence number `first_seq` on, and returns
/// the run with the first work it asks for. The application does that work,
/// reports it with `step`, and so on until `Finished`; the run then holds
/// one result per enabled target.
pub fn save_to_all_targets<'a>(config: &'a AppConfig, first_seq: u32) -> (run: (
    SaveSession<'a>,
    SaveAction,
))
    ensures
        run.0.wf(),
        run.0.config() == *config,
        exists|dests: Seq<Result<(Seq<char>, Seq<char>), Seq<char>>>|
            {
                &&& dests_valid(*config, first_seq, dests)
                &&& (run.0@, run.1@) == advance(*config, 0, Seq::empty(), first_seq, dests)
            },
        run.1 is Finished <==> run.0.finished(),
{
    let mut s = SaveSession {
        config,
        next: 0,
        stage: Stage::Ready,
        results: Vec::new(),
        seq: first_seq,
    };
    proof {
        assert(s@.results =~= Seq::<ResultView>::empty());
    }
    let ghost s0 = s@;
    let a = s.advance_run();
    proof {
        let dests = choose|dests: Seq<Result<(Seq<char>, Seq<char>), Seq<char>>>|
            {
                &&& dests_valid(*config, s0.seq, dests)
                &&& (s@, a@) == advance(*config, s0.next, s0.results, s0.seq, dests)
            };
        assert(config.save_targets@.take(0) =~= Seq::<SaveTarget>::empty());
        assert(labels(Seq::<ResultView>::empty()) =~= Seq::<Seq<char>>::empty());
        lemma_dests_somewhere(*config, first_seq, dests);
        lemma_advance(*config, 0, Seq::empty(), first_seq, dests);
    }
    (s, a)
}

/// When a save run is over, there is exactly one result per enabled target,
/// in the configured order, each named after its target's type; every
/// result succeeded exactly when it carries no error, a clipboard result or
/// a failure carries no path, and a success on a file target carries the
/// path of the file the run asked to be written: the expanded save folder
/// joined with the file name template filled in for the image's sequence
/// number and the time.
pub proof fn law_one_result_per_enabled_target(s: &SaveSession)
    requires
        s.wf(),
        s.finished(),
    ensures
        labels(s@.results) == enabled_labels(s.config().save_targets@),
        forall|k: int| 0 <= k < s@.results.len() ==> #[trigger] result_fits(s.config(), s@.results[k]),
{
    let ts = s.config().save_targets@;
    assert(ts.take(ts.len() as int) =~= ts);
}

/// Targets are saved independently: what the run does from target `i` on
/// does not depend on the results so far. Whether the earlier targets
/// succeeded or failed, it moves on to the same target, asks for the same
/// work, numbers the images alike, and adds the same results for the
/// targets it answers without outside work; the earlier results stay as
/// they were.
pub proof fn law_targets_independent(
    cfg: AppConfig,
    i: nat,
    r1: Seq<ResultView>,
    r2: Seq<ResultView>,
    seq: u32,
    dests: Seq<Result<(Seq<char>, Seq<char>), Seq<char>>>,
)
    ensures
        advance(cfg, i, r1, seq, dests).1 == advance(cfg, i, r2, seq, dests).1,
        advance(cfg, i, r1, seq, dests).0.next == advance(cfg, i, r2, seq, dests).0.next,
        advance(cfg, i, r1, seq, dests).0.stage == advance(cfg, i, r2, seq, dests).0.stage,
        advance(cfg, i, r1, seq, dests).0.seq == advance(cfg, i, r2, seq, dests).0.seq,
        advance(cfg, i, r1, seq, dests).0.results == r1 + advance(
            cfg,
            i,
            Seq::empty(),
            seq,
            dests,
        ).0.results,
    decreases cfg.save_targets@.len() - i,
{
    if i < cfg.save_targets@.len() {
        let t = cfg.save_targets@[i as int];
        if !t.enabled {
            law_targets_independent(cfg, i + 1, r1, r2, seq, dests);
            law_targets_independent(cfg, i + 1, r1, Seq::empty(), seq, dests);
        } else if t.target_type == SaveTargetType::Clipboard {
            assert(r1 =~= r1 + Seq::<ResultView>::empty());
        } else {
            let md_missing = t.target_type == SaveTargetType::Markdown && cfg.markdown_path is None;
            let d = dests[0];
            if md_missing || (dests.len() > 0 && d is Err) {
                let f = if md_missing {
                    failure_view("Markdown"@, no_markdown_message())
                } else {
                    failure_view(label(t.target_type), d->Err_0)
                };
                let seq2 = if md_missing {
                    seq
                } else {
                    next_seq(seq)
                };
                let dests2 = if md_missing {
                    dests
                } else {
                    dests.drop_first()
                };
                law_targets_independent(cfg, i + 1, r1.push(f), r2.push(f), seq2, dests2);
                law_targets_independent(cfg, i + 1, r1.push(f), seq![f], seq2, dests2);
                law_targets_independent(cfg, i + 1, seq![f], Seq::empty(), seq2, dests2);
                assert(Seq::<ResultView>::empty().push(f) =~= seq![f]);
                let x = advance(cfg, i + 1, Seq::empty(), seq2, dests2).0.results;
                assert(r1.push(f) + x =~= r1 + (seq![f] + x));
            } else {
                assert(r1 =~= r1 + Seq::<ResultView>::empty());
            }
        }
    } else {
        assert(r1 =~= r1 + Seq::<ResultView>::empty());
    }
}

/// The destinations that `advance` from target `i` leaves for later images.
pub open spec fn advance_rest(
    cfg: AppConfig,
    i: nat,
    seq: u32,
    dests: Seq<Result<(Seq<char>, Seq<char>), Seq<char>>>,
) -> Seq<Result<(Seq<char>, Seq<char>), Seq<char>>>
    decreases cfg.save_targets@.len() - i,
{
    if i >= cfg.save_targets@.len() {
        dests
    } else {
        let t = cfg.save_targets@[i as int];
        if !t.enabled {
            advance_rest(cfg, i + 1, seq, dests)
        } else if t.target_type == SaveTargetType::Clipboard {
            dests
        } else if t.target_type == SaveTargetType::Markdown && cfg.markdown_path is None {
            advance_rest(cfg, i + 1, seq, dests)
        } else if dests.len() == 0 {
            dests
        } else {
            match dests[0] {
                Err(_) => advance_rest(cfg, i + 1, next_seq(seq), dests.drop_first()),
                Ok(_) => dests.drop_first(),
            }
        }
    }
}

/// The destinations that `after` leaves for later images.
pub open spec fn after_rest(
    cfg: AppConfig,
    s: RunView,
    ev: SaveEvent,
    dests: Seq<Result<(Seq<char>, Seq<char>), Seq<char>>>,
) -> Seq<Result<(Seq<char>, Seq<char>), Seq<char>>> {
    match (s.stage, ev) {
        (StageView::AwaitingMarkdownImage { .. }, SaveEvent::ImageSaved(Ok(_))) => dests,
        (StageView::AwaitingCopy, SaveEvent::Copied(_)) => advance_rest(cfg, s.next, s.seq, dests),
        (StageView::AwaitingImage { .. }, SaveEvent::ImageSaved(_)) => advance_rest(
            cfg,
            s.next,
            s.seq,
            dests,
        ),
        (StageView::AwaitingMarkdownImage { .. }, SaveEvent::ImageSaved(_)) => advance_rest(
            cfg,
            s.next,
            s.seq,
            dests,
        ),
        (StageView::AwaitingAppend { .. }, SaveEvent::Appended(_)) => advance_rest(
            cfg,
            s.next,
            s.seq,
            dests,
        ),
        _ => dests,
    }
}

/// The report of an application that answers the action `a` with `env(a)`.
pub open spec fn answer(a: ActionView, env: spec_fn(ActionView) -> Result<(), String>) -> SaveEvent {
    match a {
        ActionView::CopyToClipboard => SaveEvent::Copied(env(a)),
        ActionView::SaveImage { .. } => SaveEvent::ImageSaved(env(a)),
        _ => SaveEvent::Appended(env(a)),
    }
}

/// The results of a run from state `s` and action `a`, with the
/// application answering each action `a` with `env(a)` and image naming
/// giving `dests` in turn, over at most `fuel` steps.
pub open spec fn drive(
    cfg: AppConfig,
    s: RunView,
    a: ActionView,
    dests: Seq<Result<(Seq<char>, Seq<char>), Seq<char>>>,
    env: spec_fn(ActionView) -> Result<(), String>,
    fuel: nat,
) -> Seq<ResultView>
    decreases fuel,
{
    if fuel == 0 || a is Finished {
        s.results
    } else {
        let ev = answer(a, env);
        let (s2, a2) = after(cfg, s, ev, dests);
        drive(cfg, s2, a2, after_rest(cfg, s, ev, dests), env, (fuel - 1) as nat)
    }
}

/// The results of a whole run under `cfg` from the sequence number `seq`,
/// with the application answering each action `a` with `env(a)` and image
/// naming giving `dests` in turn.
pub open spec fn run_results(
    cfg: AppConfig,
    seq: u32,
    dests: Seq<Result<(Seq<char>, Seq<char>), Seq<char>>>,
    env: spec_fn(ActionView) -> Result<(), String>,
) -> Seq<ResultView> {
    let (s, a) = advance(cfg, 0, Seq::empty(), seq, dests);
    drive(cfg, s, a, advance_rest(cfg, 0, seq, dests), env, 3 * cfg.save_targets@.len() + 1)
}

/// The target takes an image file: an enabled local-file target, or an
/// enabled Markdown target with a Markdown file configured.
pub open spec fn takes_image(cfg: AppConfig, t: SaveTarget) -> bool {
    &&& t.enabled
    &&& (t.target_type == SaveTargetType::LocalFile || (t.target_type == SaveTargetType::Markdown
        && cfg.markdown_path is Some))
}

/// How many of the first `k` targets take an image file.
pub open spec fn images_before(cfg: AppConfig, k: int) -> nat
    decreases k,
{
    if k <= 0 {
        0
    } else if takes_image(cfg, cfg.save_targets@[k - 1]) {
        images_before(cfg, k - 1) + 1
    } else {
        images_before(cfg, k - 1)
    }
}

/// The results for the one target `t`, with the sequence number `seq` and
/// the destination `d` for its image, the application answering each
/// action `a` with `env(a)`.
pub open spec fn target_results(
    cfg: AppConfig,
    t: SaveTarget,
    seq: u32,
    d: Result<(Seq<char>, Seq<char>), Seq<char>>,
    env: spec_fn(ActionView) -> Result<(), String>,
) -> Seq<ResultView> {
    if !t.enabled {
        Seq::empty()
    } else if t.target_type == SaveTargetType::Clipboard {
        match env(ActionView::CopyToClipboard) {
            Ok(_) => seq![success_view("Clipboard"@, None)],
            Err(e) => seq![failure_view("Clipboard"@, e@)],
        }
    } else if t.target_type == SaveTargetType::Markdown && cfg.markdown_path is None {
        seq![failure_view("Markdown"@, no_markdown_message())]
    } else {
        match d {
            Err(e) => seq![failure_view(label(t.target_type), e)],
            Ok((dir, file)) => match env(ActionView::SaveImage { dir, file }) {
                Err(e) => seq![failure_view(label(t.target_type), e@)],
                Ok(_) => if t.target_type == SaveTargetType::LocalFile {
                    seq![success_view("LocalFile"@, Some(file))]
                } else {
                    match env(
                        ActionView::AppendMarkdown {
                            md_path: opt_view(cfg.markdown_path).unwrap(),
                            image_path: file,
                        },
                    ) {
                        Ok(_) => seq![success_view("Markdown"@, Some(file))],
                        Err(e) => seq![failure_view("Markdown"@, e@)],
                    }
                },
            },
        }
    }
}

/// The results for the targets from `i` on, one target after another.
pub open spec fn results_from(
    cfg: AppConfig,
    seq: u32,
    dests: Seq<Result<(Seq<char>, Seq<char>), Seq<char>>>,
    env: spec_fn(ActionView) -> Result<(), String>,
    i: nat,
) -> Seq<ResultView>
    decreases cfg.save_targets@.len() - i,
{
    if i >= cfg.save_targets@.len() {
        Seq::empty()
    } else {
        let b = images_before(cfg, i as int);
        target_results(cfg, cfg.save_targets@[i as int], seq_after(seq, b), dests[b as int], env)
            + results_from(cfg, seq, dests, env, i + 1)
    }
}

/// The results of a run that has reached target `i` with `results`, the
/// destinations of the images before `i` used.
pub open spec fn drive_at(
    cfg: AppConfig,
    seq: u32,
    dests: Seq<Result<(Seq<char>, Seq<char>), Seq<char>>>,
    env: spec_fn(ActionView) -> Result<(), String>,
    i: nat,
    results: Seq<ResultView>,
    fuel: nat,
) -> Seq<ResultView> {
    let b = images_before(cfg, i as int);
    let q = seq_after(seq, b);
    let rest = dests.skip(b as int);
    let (s, a) = advance(cfg, i, results, q, rest);
    drive(cfg, s, a, advance_rest(cfg, i, q, rest), env, fuel)
}

/// From target `i` on, with the destinations of the images before `i` used,
/// a run adds the results of each target in turn.
proof fn lemma_drive(
    cfg: AppConfig,
    seq: u32,
    dests: Seq<Result<(Seq<char>, Seq<char>), Seq<char>>>,
    env: spec_fn(ActionView) -> Result<(), String>,
    i: nat,
    results: Seq<ResultView>,
    fuel: nat,
)
    requires
        i <= cfg.save_targets@.len(),
        dests.len() == images_before(cfg, cfg.save_targets@.len() as int),
        fuel >= 3 * (cfg.save_targets@.len() - i) + 1,
    ensures
        drive_at(cfg, seq, dests, env, i, results, fuel) == results + results_from(
            cfg,
            seq,
            dests,
            env,
            i,
        ),
    decreases cfg.save_targets@.len() - i,
{
    let ts = cfg.save_targets@;
    let b = images_before(cfg, i as int);
    let q = seq_after(seq, b);
    let rest = dests.skip(b as int);
    lemma_images_before_bounded(cfg, i as int, ts.len() as int);
    if i >= ts.len() {
        assert(results + Seq::<ResultView>::empty() =~= results);
        assert(drive_at(cfg, seq, dests, env, i, results, fuel) == results);
    } else {
        let t = ts[i as int];
        let x = target_results(cfg, t, q, dests[b as int], env);
        let tail = results_from(cfg, seq, dests, env, i + 1);
        assert(results_from(cfg, seq, dests, env, i) == x + tail);
        if !takes_image(cfg, t) {
            assert(images_before(cfg, i + 1int) == b);
            if !t.enabled {
                lemma_drive(cfg, seq, dests, env, i + 1, results, fuel);
                assert(x =~= Seq::<ResultView>::empty());
                assert(results + (x + tail) =~= results + tail);
                assert(drive_at(cfg, seq, dests, env, i, results, fuel) == results + (x + tail));
            } else if t.target_type == SaveTargetType::Clipboard {
                let r = x[0];
                let s1 = RunView { next: i + 1, stage: StageView::AwaitingCopy, results, seq: q };
                let a1 = ActionView::CopyToClipboard;
                assert(advance(cfg, i, results, q, rest) == (s1, a1));
                assert(advance_rest(cfg, i, q, rest) == rest);
                let ev = answer(a1, env);
                assert(after(cfg, s1, ev, rest) == advance(cfg, i + 1, results.push(r), q, rest));
                assert(after_rest(cfg, s1, ev, rest) == advance_rest(cfg, i + 1, q, rest));
                lemma_drive(cfg, seq, dests, env, i + 1, results.push(r), (fuel - 1) as nat);
                assert(results.push(r) + tail =~= results + (x + tail));
                assert(drive_at(cfg, seq, dests, env, i, results, fuel) == results + (x + tail));
            } else {
                let r = failure_view("Markdown"@, no_markdown_message());
                lemma_drive(cfg, seq, dests, env, i + 1, results.push(r), fuel);
                assert(results.push(r) + tail =~= results + (x + tail));
                assert(drive_at(cfg, seq, dests, env, i, results, fuel) == results + (x + tail));
            }
        } else {
            assert(images_before(cfg, i + 1int) == b + 1);
            lemma_images_before_bounded(cfg, i + 1int, ts.len() as int);
            assert(rest.len() > 0);
            assert(rest[0] == dests[b as int]);
            assert(rest.drop_first() =~= dests.skip(b + 1int));
            assert(seq_after(seq, b + 1) == next_seq(q));
            let r = x[0];
            let q2 = next_seq(q);
            let rest2 = rest.drop_first();
            match dests[b as int] {
                Err(e) => {
                    assert(advance(cfg, i, results, q, rest) == advance(
                        cfg,
                        i + 1,
                        results.push(r),
                        q2,
                        rest2,
                    ));
                    assert(advance_rest(cfg, i, q, rest) == advance_rest(cfg, i + 1, q2, rest2));
                    lemma_drive(cfg, seq, dests, env, i + 1, results.push(r), fuel);
                    assert(drive_at(cfg, seq, dests, env, i, results, fuel) == drive_at(
                        cfg,
                        seq,
                        dests,
                        env,
                        i + 1,
                        results.push(r),
                        fuel,
                    ));
                },
                Ok((dir, file)) => {
                    let a1 = ActionView::SaveImage { dir, file };
                    let ev = answer(a1, env);
                    let s1 = RunView {
                        next: i + 1,
                        stage: if t.target_type == SaveTargetType::LocalFile {
                            StageView::AwaitingImage { file }
                        } else {
                            StageView::AwaitingMarkdownImage { file }
                        },
                        results,
                        seq: q2,
                    };
                    assert(advance(cfg, i, results, q, rest) == (s1, a1));
                    assert(advance_rest(cfg, i, q, rest) == rest2);
                    if env(a1) is Err || t.target_type == SaveTargetType::LocalFile {
                        assert(after(cfg, s1, ev, rest2) == advance(
                            cfg,
                            i + 1,
                            results.push(r),
                            q2,
                            rest2,
                        ));
                        assert(after_rest(cfg, s1, ev, rest2) == advance_rest(cfg, i + 1, q2, rest2));
                        lemma_drive(cfg, seq, dests, env, i + 1, results.push(r), (fuel - 1) as nat);
                        assert(drive(cfg, s1, a1, rest2, env, fuel) == drive_at(
                            cfg,
                            seq,
                            dests,
                            env,
                            i + 1,
                            results.push(r),
                            (fuel - 1) as nat,
                        ));
                    } else {
                        let md = opt_view(cfg.markdown_path).unwrap();
                        let a2 = ActionView::AppendMarkdown { md_path: md, image_path: file };
                        let s2 = RunView {
                            next: i + 1,
                            stage: StageView::AwaitingAppend { image_path: file },
                            results,
                            seq: q2,
                        };
                        assert(after(cfg, s1, ev, rest2) == (s2, a2));
                        assert(after_rest(cfg, s1, ev, rest2) == rest2);
                        let ev2 = answer(a2, env);
                        assert(after(cfg, s2, ev2, rest2) == advance(
                            cfg,
                            i + 1,
                            results.push(r),
                            q2,
                            rest2,
                        ));
                        assert(after_rest(cfg, s2, ev2, rest2) == advance_rest(cfg, i + 1, q2, rest2));
                        lemma_drive(cfg, seq, dests, env, i + 1, results.push(r), (fuel - 2) as nat);
                        assert(drive(cfg, s2, a2, rest2, env, (fuel - 1) as nat) == drive_at(
                            cfg,
                            seq,
                            dests,
                            env,
                            i + 1,
                            results.push(r),
                            (fuel - 2) as nat,
                        ));
                        assert(drive(cfg, s1, a1, rest2, env, fuel) == drive(
                            cfg,
                            s2,
                            a2,
                            rest2,
                            env,
                            (fuel - 1) as nat,
                        ));
                    }
                },
            }
            assert(results.push(r) + tail =~= results + (x + tail));
            assert(drive_at(cfg, seq, dests, env, i, results, fuel) == results + (x + tail));
        }
    }
}

/// Fewer targets take no more image files.
proof fn lemma_images_before_bounded(cfg: AppConfig, j: int, k: int)
    requires
        0 <= j <= k,
    ensures
        images_before(cfg, j) <= images_before(cfg, k),
    decreases k - j,
{
    if j < k {
        lemma_images_before_bounded(cfg, j, k - 1);
    }
}

/// The results of saving to each target of `cfg` alone, from target `i` on,
/// one after another: target `k` saved under `singles[k]`, which has that
/// target only, from the sequence number and with the destinations that the
/// whole run reaches it with.
pub open spec fn each_alone(
    cfg: AppConfig,
    singles: Seq<AppConfig>,
    seq: u32,
    dests: Seq<Result<(Seq<char>, Seq<char>), Seq<char>>>,
    env: spec_fn(ActionView) -> Result<(), String>,
    i: nat,
) -> Seq<ResultView>
    decreases cfg.save_targets@.len() - i,
{
    if i >= cfg.save_targets@.len() {
        Seq::empty()
    } else {
        let b = images_before(cfg, i as int);
        let b2 = images_before(cfg, i + 1int);
        run_results(singles[i as int], seq_after(seq, b), dests.subrange(b as int, b2 as int), env)
            + each_alone(cfg, singles, seq, dests, env, i + 1)
    }
}

/// `c` is `cfg` cut down to its target `k`: the same Markdown file, and
/// that target alone.
pub open spec fn single_target_of(c: AppConfig, cfg: AppConfig, k: int) -> bool {
    &&& c.save_targets@ == seq![cfg.save_targets@[k]]
    &&& c.markdown_path == cfg.markdown_path
}

/// Saving to every target is saving to each target alone, one after
/// another: when the application answers every request alike and image
/// naming gives `dests` in turn, one per image file, the results of a run
/// are the results of saving to each target by itself, in the configured
/// order, each from the sequence number the run has reached. A failing
/// target neither stops the run nor changes the results of the targets
/// after it.
pub proof fn law_run_is_each_target_alone(
    cfg: AppConfig,
    singles: Seq<AppConfig>,
    seq: u32,
    dests: Seq<Result<(Seq<char>, Seq<char>), Seq<char>>>,
    env: spec_fn(ActionView) -> Result<(), String>,
)
    requires
        dests.len() == images_before(cfg, cfg.save_targets@.len() as int),
        singles.len() == cfg.save_targets@.len(),
        forall|k: int| 0 <= k < singles.len() ==> single_target_of(#[trigger] singles[k], cfg, k),
    ensures
        run_results(cfg, seq, dests, env) == each_alone(cfg, singles, seq, dests, env, 0),
{
    let n = cfg.save_targets@.len();
    assert(dests.skip(0) =~= dests);
    lemma_drive(cfg, seq, dests, env, 0, Seq::empty(), 3 * n + 1);
    assert(Seq::<ResultView>::empty() + results_from(cfg, seq, dests, env, 0) =~= results_from(
        cfg,
        seq,
        dests,
        env,
        0,
    ));
    lemma_each_alone(cfg, singles, seq, dests, env, 0);
}

proof fn lemma_each_alone(
    cfg: AppConfig,
    singles: Seq<AppConfig>,
    seq: u32,
    dests: Seq<Result<(Seq<char>, Seq<char>), Seq<char>>>,
    env: spec_fn(ActionView) -> Result<(), String>,
    i: nat,
)
    requires
        dests.len() == images_before(cfg, cfg.save_targets@.len() as int),
        singles.len() == cfg.save_targets@.len(),
        forall|k: int| 0 <= k < singles.len() ==> single_target_of(#[trigger] singles[k], cfg, k),
    ensures
        results_from(cfg, seq, dests, env, i) == each_alone(cfg, singles, seq, dests, env, i),
    decreases cfg.save_targets@.len() - i,
{
    let n = cfg.save_targets@.len();
    if i < n {
        lemma_each_alone(cfg, singles, seq, dests, env, i + 1);
        let c = singles[i as int];
        assert(single_target_of(c, cfg, i as int));
        let t = cfg.save_targets@[i as int];
        let b = images_before(cfg, i as int);
        let b2 = images_before(cfg, i + 1int);
        lemma_images_before_bounded(cfg, i + 1int, n as int);
        let q = seq_after(seq, b);
        let d = dests.subrange(b as int, b2 as int);
        assert(c.save_targets@[0] == t);
        assert(images_before(c, 0) == 0);
        assert(takes_image(c, t) == takes_image(cfg, t));
        assert(b2 == b + if takes_image(cfg, t) { 1int } else { 0int });
        assert(images_before(c, 1) == if takes_image(c, t) { 1int } else { 0int });
        assert(images_before(c, 1) == b2 - b);
        assert(d.skip(0) =~= d);
        lemma_drive(c, q, d, env, 0, Seq::empty(), 4);
        assert(seq_after(q, 0) == q);
        assert(results_from(c, q, d, env, 1) == Seq::<ResultView>::empty());
        assert(takes_image(cfg, t) ==> d[0] == dests[b as int]);
        assert(target_results(c, t, q, d[0], env) == target_results(cfg, t, q, dests[b as int], env));
        let x = target_results(cfg, t, q, dests[b as int], env);
        assert(Seq::<ResultView>::empty() + (x + Seq::<ResultView>::empty()) =~= x);
        assert(run_results(c, q, d, env) == x);
    }
}

} // verus!
