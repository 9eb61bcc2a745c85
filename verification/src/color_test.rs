//! A test client for the colour management protocol of a Wayland compositor:
//! its arguments, its state, and the picture that it shows.

use crate::text::{lowered, same, to_ascii_lowercase, views};
use vstd::prelude::*;

verus! {

// ---------------------------------------------------------------------------
// Arguments
// ---------------------------------------------------------------------------

/// How the picture is encoded.
#[derive(Clone, Copy, Debug, PartialEq, Eq, Structural)]
pub enum TransferTag {
    Srgb,
    Linear,
}

#[derive(Clone, Copy, Debug, PartialEq, Eq, Structural)]
pub enum TestMode {
    Simple,
    /// Asks for the descriptions of the output and of the surface first.
    ChromePath,
}

/// What is wrong with the arguments.
#[derive(Debug)]
pub enum ArgError {
    UnknownTransfer { value: String },
    MissingTransfer,
    UnknownArgument { value: String },
}

/// The value of an [`ArgError`].
pub ghost enum ArgErrorView {
    UnknownTransfer { value: Seq<char> },
    MissingTransfer,
    UnknownArgument { value: Seq<char> },
}

impl View for ArgError {
    type V = ArgErrorView;

    open spec fn view(&self) -> ArgErrorView {
        match *self {
            ArgError::UnknownTransfer { value } => ArgErrorView::UnknownTransfer { value: value@ },
            ArgError::MissingTransfer => ArgErrorView::MissingTransfer,
            ArgError::UnknownArgument { value } => ArgErrorView::UnknownArgument { value: value@ },
        }
    }
}

impl ArgError {
    pub open spec fn spec_message(self) -> Seq<char> {
        match self@ {
            ArgErrorView::UnknownTransfer { value } => "unknown transfer `"@ + value
                + "` (expected srgb or linear)"@,
            ArgErrorView::MissingTransfer => "--transfer requires a value (srgb or linear)"@,
            ArgErrorView::UnknownArgument { value } => "unknown argument `"@ + value + "`"@,
        }
    }

    /// The error in words.
    pub fn message(&self) -> (r: String)
        ensures
            r@ == self.spec_message(),
    {
        match self {
            ArgError::UnknownTransfer { value } => "unknown transfer `".to_owned().concat(
                value.as_str(),
            ).concat("` (expected srgb or linear)"),
            ArgError::MissingTransfer => "--transfer requires a value (srgb or linear)".to_owned(),
            ArgError::UnknownArgument { value } => "unknown argument `".to_owned().concat(
                value.as_str(),
            ).concat("`"),
        }
    }
}

/// The encoding that a word names, in any case of ASCII letters.
pub open spec fn transfer_of(value: Seq<char>) -> Option<TransferTag> {
    let word = lowered(value);
    if word == "srgb"@ || word == "s"@ {
        Some(TransferTag::Srgb)
    } else if word == "linear"@ || word == "linear_srgb"@ || word == "l"@ {
        Some(TransferTag::Linear)
    } else {
        None
    }
}

impl TransferTag {
    /// The encoding that a word names.
    pub fn parse(value: &str) -> (r: Result<TransferTag, ArgError>)
        ensures
            match transfer_of(value@) {
                Some(tag) => r == Ok::<TransferTag, ArgError>(tag),
                None => r is Err && r->Err_0@ == (ArgErrorView::UnknownTransfer {
                    value: lowered(value@),
                }),
            },
    {
        let word = to_ascii_lowercase(value);
        if same(word.as_str(), "srgb") || same(word.as_str(), "s") {
            Ok(TransferTag::Srgb)
        } else if same(word.as_str(), "linear") || same(word.as_str(), "linear_srgb") || same(
            word.as_str(),
            "l",
        ) {
            Ok(TransferTag::Linear)
        } else {
            Err(ArgError::UnknownTransfer { value: word })
        }
    }
}

/// What the arguments ask for.
#[derive(Clone, Copy, Debug, PartialEq, Eq, Structural)]
pub enum ParsedArgs {
    /// Show how the program is called.
    Help,
    Run { mode: TestMode, transfer: TransferTag },
}

/// What the arguments from the `i`-th on ask for, given those before them.
pub open spec fn args_from(
    args: Seq<Seq<char>>,
    i: int,
    mode: TestMode,
    transfer: TransferTag,
) -> Result<ParsedArgs, ArgErrorView>
    decreases args.len() - i,
{
    if i < 0 || i >= args.len() {
        Ok(ParsedArgs::Run { mode, transfer })
    } else if args[i] == "--help"@ || args[i] == "-h"@ {
        Ok(ParsedArgs::Help)
    } else if args[i] == "--chrome-path"@ {
        args_from(args, i + 1, TestMode::ChromePath, transfer)
    } else if args[i] == "--transfer"@ || args[i] == "-t"@ {
        if i + 1 >= args.len() {
            Err(ArgErrorView::MissingTransfer)
        } else {
            match transfer_of(args[i + 1]) {
                Some(tag) => args_from(args, i + 2, mode, tag),
                None => Err(ArgErrorView::UnknownTransfer { value: lowered(args[i + 1]) }),
            }
        }
    } else {
        Err(ArgErrorView::UnknownArgument { value: args[i] })
    }
}

/// What the arguments ask for: without any, a simple test with linear light.
/// They count from the left, and the first that is wrong, or asks for help,
/// decides.
pub fn parse_args(args: &Vec<String>) -> (r: Result<ParsedArgs, ArgError>)
    ensures
        match args_from(views(args@), 0, TestMode::Simple, TransferTag::Linear) {
            Ok(p) => r == Ok::<ParsedArgs, ArgError>(p),
            Err(e) => r is Err && r->Err_0@ == e,
        },
{
    let ghost all = views(args@);
    let mut mode = TestMode::Simple;
    let mut transfer = TransferTag::Linear;
    let mut i: usize = 0;
    while i < args.len()
        invariant
            i <= args.len(),
            all == views(args@),
            args_from(all, 0, TestMode::Simple, TransferTag::Linear) == args_from(
                all,
                i as int,
                mode,
                transfer,
            ),
        decreases args.len() - i,
    {
        let arg = args[i].as_str();
        assert(all[i as int] == arg@);
        if same(arg, "--help") || same(arg, "-h") {
            return Ok(ParsedArgs::Help);
        } else if same(arg, "--chrome-path") {
            mode = TestMode::ChromePath;
            i += 1;
        } else if same(arg, "--transfer") || same(arg, "-t") {
            if i + 1 >= args.len() {
                return Err(ArgError::MissingTransfer);
            }
            assert(all[i + 1] == args@[i + 1]@);
            match TransferTag::parse(args[i + 1].as_str()) {
                Ok(tag) => {
                    transfer = tag;
                },
                Err(e) => {
                    return Err(e);
                },
            }
            i += 2;
        } else {
            return Err(ArgError::UnknownArgument { value: args[i].clone() });
        }
    }
    Ok(ParsedArgs::Run { mode, transfer })
}

// ---------------------------------------------------------------------------
// The client
// ---------------------------------------------------------------------------

/// What the client has of the compositor, and how far it got.
#[derive(Clone, Copy, Debug, PartialEq, Eq, Structural)]
pub struct App {
    pub mode: TestMode,
    pub transfer: TransferTag,
    pub compositor: bool,
    pub shm: bool,
    pub wm_base: bool,
    pub output: bool,
    pub color_manager: bool,
    /// The description of the output was asked for.
    pub output_image: bool,
    pub output_info_done: bool,
    /// The preferred description of the surface was asked for.
    pub preferred_image: bool,
    pub preferred_info_done: bool,
    /// The description of the picture was asked for.
    pub image_description: bool,
    pub image_ready: bool,
    pub manager_done: bool,
    pub chrome_output_ready: bool,
    pub surface: bool,
    pub configured: bool,
    pub done: bool,
}

/// A client that has nothing yet.
pub open spec fn fresh_app(mode: TestMode, transfer: TransferTag) -> App {
    App {
        mode,
        transfer,
        compositor: false,
        shm: false,
        wm_base: false,
        output: false,
        color_manager: false,
        output_image: false,
        output_info_done: false,
        preferred_image: false,
        preferred_info_done: false,
        image_description: false,
        image_ready: false,
        manager_done: false,
        chrome_output_ready: false,
        surface: false,
        configured: false,
        done: false,
    }
}

/// What stops the client.
#[derive(Clone, Copy, Debug, PartialEq, Eq, Structural)]
pub enum AppError {
    NoManager,
    NoOutput,
    NoCompositor,
    NoShell,
    NoImageDescription,
    NoSurface,
    NoShm,
    ManagerNotDone,
    ChromeNeedsOutput,
    OutputPathIncomplete,
    ImageNotReady,
    PreferredPathIncomplete,
}

impl AppError {
    pub open spec fn spec_message(self) -> Seq<char> {
        match self {
            AppError::NoManager => "wp_color_manager_v1 missing (is this FocalDesk?)"@,
            AppError::NoOutput => "wl_output missing"@,
            AppError::NoCompositor => "wl_compositor missing"@,
            AppError::NoShell => "xdg_wm_base missing"@,
            AppError::NoImageDescription => "image description missing"@,
            AppError::NoSurface => "surface missing"@,
            AppError::NoShm => "wl_shm missing"@,
            AppError::ManagerNotDone => "wp_color_manager_v1 did not send done"@,
            AppError::ChromeNeedsOutput => "--chrome-path requires wl_output"@,
            AppError::OutputPathIncomplete =>
                "output wp_image_description_v1 path did not complete"@,
            AppError::ImageNotReady => "wp_image_description_v1 did not become ready"@,
            AppError::PreferredPathIncomplete =>
                "surface feedback get_preferred path did not complete"@,
        }
    }

    /// The error in words.
    pub fn message(self) -> (r: &'static str)
        ensures
            r@ == self.spec_message(),
    {
        match self {
            AppError::NoManager => "wp_color_manager_v1 missing (is this FocalDesk?)",
            AppError::NoOutput => "wl_output missing",
            AppError::NoCompositor => "wl_compositor missing",
            AppError::NoShell => "xdg_wm_base missing",
            AppError::NoImageDescription => "image description missing",
            AppError::NoSurface => "surface missing",
            AppError::NoShm => "wl_shm missing",
            AppError::ManagerNotDone => "wp_color_manager_v1 did not send done",
            AppError::ChromeNeedsOutput => "--chrome-path requires wl_output",
            AppError::OutputPathIncomplete =>
                "output wp_image_description_v1 path did not complete",
            AppError::ImageNotReady => "wp_image_description_v1 did not become ready",
            AppError::PreferredPathIncomplete =>
                "surface feedback get_preferred path did not complete",
        }
    }
}

/// Which description became ready.
#[derive(Clone, Copy, Debug, PartialEq, Eq, Structural)]
pub enum ReadyImage {
    Output,
    Preferred,
    Own,
}

/// What to do after an event.
#[derive(Clone, Copy, Debug, PartialEq, Eq, Structural)]
pub enum AppAction {
    Nothing,
    /// Ask for the description of the output.
    SetUpOutput,
    /// Ask for the details of the description.
    GetInformation,
    /// Ask for the preferred description.
    GetPreferred,
    /// Attach the picture and commit the surface.
    Commit,
}

/// The named transfer functions of the protocol.
#[derive(Clone, Copy, Debug, PartialEq, Eq, Structural)]
pub enum NamedTransfer {
    Bt1886,
    ExtLinear,
}

/// The transfer function that an encoding is announced with.
pub fn named_transfer(tag: TransferTag) -> (r: NamedTransfer)
    ensures
        r == match tag {
            TransferTag::Srgb => NamedTransfer::Bt1886,
            TransferTag::Linear => NamedTransfer::ExtLinear,
        },
{
    match tag {
        TransferTag::Srgb => NamedTransfer::Bt1886,
        TransferTag::Linear => NamedTransfer::ExtLinear,
    }
}

/// The interfaces that the client binds.
#[derive(Clone, Copy, Debug, PartialEq, Eq, Structural)]
pub enum Global {
    Compositor,
    Shm,
    Output,
    WmBase,
    ColorManager,
}

/// The interface of a name.
pub open spec fn global_named(name: Seq<char>) -> Option<Global> {
    if name == "wl_compositor"@ {
        Some(Global::Compositor)
    } else if name == "wl_shm"@ {
        Some(Global::Shm)
    } else if name == "wl_output"@ {
        Some(Global::Output)
    } else if name == "xdg_wm_base"@ {
        Some(Global::WmBase)
    } else if name == "wp_color_manager_v1"@ {
        Some(Global::ColorManager)
    } else {
        None
    }
}

fn find_global(name: &str) -> (r: Option<Global>)
    ensures
        r == global_named(name@),
{
    if same(name, "wl_compositor") {
        Some(Global::Compositor)
    } else if same(name, "wl_shm") {
        Some(Global::Shm)
    } else if same(name, "wl_output") {
        Some(Global::Output)
    } else if same(name, "xdg_wm_base") {
        Some(Global::WmBase)
    } else if same(name, "wp_color_manager_v1") {
        Some(Global::ColorManager)
    } else {
        None
    }
}

/// The newest version of an interface that the client speaks.
pub open spec fn newest_version(g: Global, mode: TestMode) -> u32 {
    match g {
        Global::Compositor => 4,
        Global::Shm => 1,
        Global::Output => 4,
        Global::WmBase => 4,
        Global::ColorManager => match mode {
            TestMode::Simple => 2,
            TestMode::ChromePath => 1,
        },
    }
}

fn newest_of(g: Global, mode: TestMode) -> (r: u32)
    ensures
        r == newest_version(g, mode),
{
    match g {
        Global::Compositor => 4,
        Global::Shm => 1,
        Global::Output => 4,
        Global::WmBase => 4,
        Global::ColorManager => match mode {
            TestMode::Simple => 2,
            TestMode::ChromePath => 1,
        },
    }
}

/// The client with an interface bound.
pub open spec fn with_global(a: App, g: Global) -> App {
    match g {
        Global::Compositor => App { compositor: true, ..a },
        Global::Shm => App { shm: true, ..a },
        Global::Output => App { output: true, ..a },
        Global::WmBase => App { wm_base: true, ..a },
        Global::ColorManager => App { color_manager: true, ..a },
    }
}

/// The picture is shown once the window is configured and its description is
/// ready; on the long path also the details of the output and of the preferred
/// description must have arrived.
pub open spec fn ready_to_commit(a: App) -> bool {
    a.configured && a.image_ready && (a.mode == TestMode::ChromePath ==> a.chrome_output_ready
        && a.preferred_info_done)
}

/// A commit where it is possible. Without a surface or shared memory it fails,
/// and the failure is dropped.
pub open spec fn commit_action(a: App) -> AppAction {
    if ready_to_commit(a) && a.surface && a.shm {
        AppAction::Commit
    } else {
        AppAction::Nothing
    }
}

/// What the compositor tells the program once it has bound what it needs.
pub ghost enum AppEvent {
    Configured,
    PreferredChanged,
    InfoDone,
    ImageReady { which: ReadyImage },
}

/// What the program knows after an event, and what it does about it.
pub open spec fn app_after(a: App, e: AppEvent) -> (App, AppAction) {
    match e {
        AppEvent::Configured => {
            let b = App { configured: true, ..a };
            (b, commit_action(b))
        },
        AppEvent::PreferredChanged => (
            App { preferred_image: true, preferred_info_done: false, ..a },
            AppAction::GetPreferred,
        ),
        AppEvent::InfoDone => if a.output_image && !a.output_info_done {
            let b = App { output_info_done: true, chrome_output_ready: true, ..a };
            (b, commit_action(b))
        } else if a.preferred_image && !a.preferred_info_done {
            let b = App { preferred_info_done: true, ..a };
            (b, commit_action(b))
        } else {
            (a, AppAction::Nothing)
        },
        AppEvent::ImageReady { which } => if which == ReadyImage::Own {
            let b = App { image_ready: true, ..a };
            (b, commit_action(b))
        } else {
            (a, AppAction::GetInformation)
        },
    }
}

impl App {
    /// A client that has nothing yet.
    pub fn new(mode: TestMode, transfer: TransferTag) -> (r: App)
        ensures
            r == fresh_app(mode, transfer),
    {
        App {
            mode,
            transfer,
            compositor: false,
            shm: false,
            wm_base: false,
            output: false,
            color_manager: false,
            output_image: false,
            output_info_done: false,
            preferred_image: false,
            preferred_info_done: false,
            image_description: false,
            image_ready: false,
            manager_done: false,
            chrome_output_ready: false,
            surface: false,
            configured: false,
            done: false,
        }
    }

    /// An interface is on offer: the version to bind, where the client wants
    /// it. Only the first output is bound.
    pub fn on_global(&mut self, name: &str, version: u32) -> (r: Option<u32>)
        ensures
            match global_named(name@) {
                None => r is None && *final(self) == *old(self),
                Some(g) => if g == Global::Output && old(self).output {
                    r is None && *final(self) == *old(self)
                } else {
                    &&& r == Some(
                        if version <= newest_version(g, old(self).mode) {
                            version
                        } else {
                            newest_version(g, old(self).mode)
                        },
                    )
                    &&& *final(self) == with_global(*old(self), g)
                },
            },
    {
        let g = match find_global(name) {
            None => {
                return None;
            },
            Some(g) => g,
        };
        if g == Global::Output && self.output {
            return None;
        }
        let newest: u32 = newest_of(g, self.mode);
        self.bind(g);
        if version <= newest {
            Some(version)
        } else {
            Some(newest)
        }
    }

    fn bind(&mut self, g: Global)
        ensures
            *final(self) == with_global(*old(self), g),
    {
        let a = *self;
        *self = match g {
            Global::Compositor => App { compositor: true, ..a },
            Global::Shm => App { shm: true, ..a },
            Global::Output => App { output: true, ..a },
            Global::WmBase => App { wm_base: true, ..a },
            Global::ColorManager => App { color_manager: true, ..a },
        };
    }

    /// The colour manager has said all it can do. On the long path the
    /// description of the output is asked for, where there is one.
    pub fn on_manager_done(&mut self) -> (r: AppAction)
        ensures
            ({
                let asks = old(self).mode == TestMode::ChromePath && old(self).color_manager
                    && old(self).output;
                &&& *final(self) == (App {
                    manager_done: true,
                    output_image: old(self).output_image || asks,
                    ..*old(self)
                })
                &&& r == if asks {
                    AppAction::SetUpOutput
                } else {
                    AppAction::Nothing
                }
            }),
    {
        self.manager_done = true;
        if self.mode == TestMode::ChromePath && self.color_manager && self.output {
            self.output_image = true;
            AppAction::SetUpOutput
        } else {
            AppAction::Nothing
        }
    }

    /// The description of the picture is asked for.
    pub fn create_image_description(&mut self) -> (r: Result<NamedTransfer, AppError>)
        ensures
            if old(self).color_manager {
                &&& *final(self) == (App { image_description: true, ..*old(self) })
                &&& r == Ok::<NamedTransfer, AppError>(
                    match old(self).transfer {
                        TransferTag::Srgb => NamedTransfer::Bt1886,
                        TransferTag::Linear => NamedTransfer::ExtLinear,
                    },
                )
            } else {
                &&& *final(self) == *old(self)
                &&& r == Err::<NamedTransfer, AppError>(AppError::NoManager)
            },
    {
        if !self.color_manager {
            return Err(AppError::NoManager);
        }
        self.image_description = true;
        Ok(named_transfer(self.transfer))
    }

    /// The window is made. Returns whether to ask for the preferred
    /// description of its surface.
    pub fn create_window(&mut self) -> (r: Result<bool, AppError>)
        ensures
            ({
                let a = *old(self);
                let missing = if !a.compositor {
                    Some(AppError::NoCompositor)
                } else if !a.wm_base {
                    Some(AppError::NoShell)
                } else if !a.color_manager {
                    Some(AppError::NoManager)
                } else if !a.image_description {
                    Some(AppError::NoImageDescription)
                } else {
                    None
                };
                match missing {
                    Some(e) => r == Err::<bool, AppError>(e) && *final(self) == a,
                    None => {
                        let asks = a.mode == TestMode::ChromePath;
                        &&& r == Ok::<bool, AppError>(asks)
                        &&& *final(self) == (App {
                            surface: true,
                            preferred_image: a.preferred_image || asks,
                            ..a
                        })
                    },
                }
            }),
    {
        if !self.compositor {
            return Err(AppError::NoCompositor);
        }
        if !self.wm_base {
            return Err(AppError::NoShell);
        }
        if !self.color_manager {
            return Err(AppError::NoManager);
        }
        if !self.image_description {
            return Err(AppError::NoImageDescription);
        }
        let asks = self.mode == TestMode::ChromePath;
        if asks {
            self.preferred_image = true;
        }
        self.surface = true;
        Ok(asks)
    }

    /// Whether the picture is to be committed now.
    pub fn commit_if_ready(&self) -> (r: Result<bool, AppError>)
        ensures
            r == if !ready_to_commit(*self) {
                Ok::<bool, AppError>(false)
            } else if !self.surface {
                Err::<bool, AppError>(AppError::NoSurface)
            } else if !self.shm {
                Err::<bool, AppError>(AppError::NoShm)
            } else {
                Ok::<bool, AppError>(true)
            },
    {
        if !self.configured || !self.image_ready {
            return Ok(false);
        }
        if !self.chrome_output_path_ready() || !self.chrome_preferred_path_ready() {
            return Ok(false);
        }
        if !self.surface {
            return Err(AppError::NoSurface);
        }
        if !self.shm {
            return Err(AppError::NoShm);
        }
        Ok(true)
    }

    /// The details of the output have arrived, where they are needed.
    pub fn chrome_output_path_ready(&self) -> (r: bool)
        ensures
            r == (self.mode == TestMode::ChromePath ==> self.chrome_output_ready),
    {
        self.mode != TestMode::ChromePath || self.chrome_output_ready
    }

    /// The details of the preferred description have arrived, where they are
    /// needed.
    pub fn chrome_preferred_path_ready(&self) -> (r: bool)
        ensures
            r == (self.mode == TestMode::ChromePath ==> self.preferred_info_done),
    {
        self.mode != TestMode::ChromePath || self.preferred_info_done
    }

    fn commit(&self) -> (r: AppAction)
        ensures
            r == commit_action(*self),
    {
        match self.commit_if_ready() {
            Ok(true) => AppAction::Commit,
            _ => AppAction::Nothing,
        }
    }

    /// The window was configured.
    pub fn on_configure(&mut self) -> (r: AppAction)
        ensures
            (*final(self), r) == app_after(*old(self), AppEvent::Configured),
            *final(self) == (App { configured: true, ..*old(self) }),
            r == commit_action(*final(self)),
    {
        self.configured = true;
        self.commit()
    }

    /// The window was closed.
    pub fn on_close(&mut self)
        ensures
            *final(self) == (App { done: true, ..*old(self) }),
    {
        self.done = true;
    }

    /// The preferred description changed: it is asked for again.
    pub fn on_preferred_changed(&mut self) -> (r: AppAction)
        ensures
            (*final(self), r) == app_after(*old(self), AppEvent::PreferredChanged),
            *final(self) == (App {
                preferred_image: true,
                preferred_info_done: false,
                ..*old(self)
            }),
            r == AppAction::GetPreferred,
    {
        self.preferred_image = true;
        self.preferred_info_done = false;
        AppAction::GetPreferred
    }

    /// All details of a description have arrived: those of the output come
    /// first.
    pub fn on_info_done(&mut self) -> (r: AppAction)
        ensures
            (*final(self), r) == app_after(*old(self), AppEvent::InfoDone),
            ({
                let a = *old(self);
                if a.output_image && !a.output_info_done {
                    &&& *final(self) == (App {
                        output_info_done: true,
                        chrome_output_ready: true,
                        ..a
                    })
                    &&& r == commit_action(*final(self))
                } else if a.preferred_image && !a.preferred_info_done {
                    &&& *final(self) == (App { preferred_info_done: true, ..a })
                    &&& r == commit_action(*final(self))
                } else {
                    *final(self) == a && r == AppAction::Nothing
                }
            }),
    {
        if self.output_image && !self.output_info_done {
            self.output_info_done = true;
            self.chrome_output_ready = true;
            return self.commit();
        }
        if self.preferred_image && !self.preferred_info_done {
            self.preferred_info_done = true;
            return self.commit();
        }
        AppAction::Nothing
    }

    /// A description became ready: of the output's and the preferred one the
    /// details are asked for, the client's own can be shown.
    pub fn on_image_ready(&mut self, which: ReadyImage) -> (r: AppAction)
        ensures
            (*final(self), r) == app_after(*old(self), AppEvent::ImageReady { which }),
            if which == ReadyImage::Own {
                &&& *final(self) == (App { image_ready: true, ..*old(self) })
                &&& r == commit_action(*final(self))
            } else {
                *final(self) == *old(self) && r == AppAction::GetInformation
            },
    {
        if which != ReadyImage::Own {
            return AppAction::GetInformation;
        }
        self.image_ready = true;
        self.commit()
    }

    /// What must hold after the first round trip.
    pub fn check_globals(&self) -> (r: Result<(), AppError>)
        ensures
            r == if !self.manager_done {
                Err::<(), AppError>(AppError::ManagerNotDone)
            } else if self.mode == TestMode::ChromePath && !self.output {
                Err::<(), AppError>(AppError::ChromeNeedsOutput)
            } else {
                Ok::<(), AppError>(())
            },
    {
        if !self.manager_done {
            return Err(AppError::ManagerNotDone);
        }
        if self.mode == TestMode::ChromePath && !self.output {
            return Err(AppError::ChromeNeedsOutput);
        }
        Ok(())
    }

    /// What must hold after the round trip for the output.
    pub fn check_output(&self) -> (r: Result<(), AppError>)
        ensures
            r == if self.mode == TestMode::ChromePath && !self.chrome_output_ready {
                Err::<(), AppError>(AppError::OutputPathIncomplete)
            } else {
                Ok::<(), AppError>(())
            },
    {
        if self.mode == TestMode::ChromePath && !self.chrome_output_ready {
            return Err(AppError::OutputPathIncomplete);
        }
        Ok(())
    }

    /// What must hold after the round trip for the description.
    pub fn check_image(&self) -> (r: Result<(), AppError>)
        ensures
            r == if !self.image_ready {
                Err::<(), AppError>(AppError::ImageNotReady)
            } else {
                Ok::<(), AppError>(())
            },
    {
        if !self.image_ready {
            return Err(AppError::ImageNotReady);
        }
        Ok(())
    }

    /// What must hold after the round trip for the window.
    pub fn check_window(&self) -> (r: Result<(), AppError>)
        ensures
            r == if self.mode == TestMode::ChromePath && !self.preferred_info_done {
                Err::<(), AppError>(AppError::PreferredPathIncomplete)
            } else {
                Ok::<(), AppError>(())
            },
    {
        if self.mode == TestMode::ChromePath && !self.preferred_info_done {
            return Err(AppError::PreferredPathIncomplete);
        }
        Ok(())
    }
}

/// A picture is committed only for a configured window whose description is
/// ready; on the long path not before both details have arrived.
pub proof fn law_commit_is_ready(a: App)
    requires
        commit_action(a) == AppAction::Commit,
    ensures
        a.configured && a.image_ready && a.surface && a.shm,
        a.mode == TestMode::ChromePath ==> a.chrome_output_ready && a.preferred_info_done,
{
}

// ---------------------------------------------------------------------------
// The picture
// ---------------------------------------------------------------------------

pub const WIDTH: usize = 256;

pub const HEIGHT: usize = 256;

pub const STRIDE: usize = 1024;

/// A byte of the picture: opaque green, darker in the left half.
pub open spec fn pattern_byte(i: int, left: u8, right: u8) -> u8 {
    let x = (i / 4) % 256;
    if i % 4 == 1 {
        if x < 128 {
            left
        } else {
            right
        }
    } else if i % 4 == 3 {
        255
    } else {
        0
    }
}

/// Fills the picture: blue, green, red and alpha of each pixel, with the green
/// of the left and of the right half.
pub fn fill_test_pattern(pixels: &mut [u8], left: u8, right: u8)
    requires
        old(pixels)@.len() >= STRIDE * HEIGHT,
    ensures
        final(pixels)@ == Seq::new(
            old(pixels)@.len(),
            |i: int|
                if i < STRIDE * HEIGHT {
                    pattern_byte(i, left, right)
                } else {
                    old(pixels)@[i]
                },
        ),
{
    let ghost before = pixels@;
    let mut k: usize = 0;
    while k < WIDTH * HEIGHT
        invariant
            k <= 65536,
            before.len() >= 262144,
            pixels@.len() == before.len(),
            forall|i: int| 0 <= i < 4 * k ==> #[trigger] pixels@[i] == pattern_byte(i, left, right),
            forall|i: int| 4 * k <= i < before.len() ==> #[trigger] pixels@[i] == before[i],
        decreases 65536 - k,
    {
        let at: usize = 4 * k;
        let green: u8 = if k % 256 < 128 {
            left
        } else {
            right
        };
        pixels[at] = 0;
        pixels[at + 1] = green;
        pixels[at + 2] = 0;
        pixels[at + 3] = 255;
        k += 1;
    }
    assert(pixels@ =~= Seq::new(
        before.len(),
        |i: int|
            if i < STRIDE * HEIGHT {
                pattern_byte(i, left, right)
            } else {
                before[i]
            },
    ));
}

/// Whether nothing is left that the picture has to wait for.
pub open spec fn has_everything(a: App) -> bool {
    &&& a.configured && a.image_ready && a.surface && a.shm
    &&& a.mode == TestMode::ChromePath ==> a.output_info_done && a.chrome_output_ready
        && a.preferred_info_done
}

/// The picture is shown as soon as it can be: the event that brings the last
/// thing it waits for is answered by showing it, whichever event that is, and no
/// event before it is.
pub proof fn law_picture_is_shown(a: App)
    requires
        a.chrome_output_ready == a.output_info_done,
    ensures
        app_after(a, AppEvent::Configured).0.configured,
        (app_after(a, AppEvent::Configured).1 == AppAction::Commit) == has_everything(
            app_after(a, AppEvent::Configured).0,
        ),
{
    let b = app_after(a, AppEvent::Configured).0;
    assert(b.chrome_output_ready == b.output_info_done);
}

/// As for the window, so for the description of the picture; the other
/// descriptions are asked for their details.
pub proof fn law_picture_waits_for_its_description(a: App)
    requires
        a.chrome_output_ready == a.output_info_done,
    ensures
        ({
            let (b, action) = app_after(a, AppEvent::ImageReady { which: ReadyImage::Own });
            &&& b.image_ready
            &&& (action == AppAction::Commit) == has_everything(b)
        }),
        app_after(a, AppEvent::ImageReady { which: ReadyImage::Output }) == (
            a,
            AppAction::GetInformation,
        ),
        app_after(a, AppEvent::ImageReady { which: ReadyImage::Preferred }) == (
            a,
            AppAction::GetInformation,
        ),
{
    let b = app_after(a, AppEvent::ImageReady { which: ReadyImage::Own }).0;
    assert(b.chrome_output_ready == b.output_info_done);
}

/// The details of the output's description come before those of the preferred
/// one, and with the last of them the picture is shown.
pub proof fn law_details_arrive(a: App)
    requires
        a.chrome_output_ready == a.output_info_done,
    ensures
        ({
            let (b, action) = app_after(a, AppEvent::InfoDone);
            let output = a.output_image && !a.output_info_done;
            let preferred = !output && a.preferred_image && !a.preferred_info_done;
            &&& output ==> b.output_info_done && b.chrome_output_ready && b.preferred_info_done
                == a.preferred_info_done
            &&& preferred ==> b.preferred_info_done && b.output_info_done == a.output_info_done
            &&& output || preferred ==> (action == AppAction::Commit) == has_everything(b)
            &&& !output && !preferred ==> b == a && action == AppAction::Nothing
            &&& b.configured == a.configured && b.image_ready == a.image_ready
        }),
{
    let b = app_after(a, AppEvent::InfoDone).0;
    assert(b.chrome_output_ready == b.output_info_done);
}

/// A preferred description that changed is asked for again, and until its details
/// are there the picture is not shown.
pub proof fn law_preferred_is_asked_again(a: App)
    ensures
        ({
            let (b, action) = app_after(a, AppEvent::PreferredChanged);
            &&& action == AppAction::GetPreferred
            &&& b.preferred_image && !b.preferred_info_done
            &&& a.mode == TestMode::ChromePath ==> !has_everything(b)
            &&& b.configured == a.configured && b.image_ready == a.image_ready
                && b.output_info_done == a.output_info_done && b.chrome_output_ready
                == a.chrome_output_ready
        }),
{
}

/// Every global that the program needs is known by its own name, and no other.
pub proof fn law_global_names(name: Seq<char>)
    ensures
        global_named(name) == Some(Global::Compositor) <==> name == "wl_compositor"@,
        global_named(name) == Some(Global::Shm) <==> name == "wl_shm"@,
        global_named(name) == Some(Global::Output) <==> name == "wl_output"@,
        global_named(name) == Some(Global::WmBase) <==> name == "xdg_wm_base"@,
        global_named(name) == Some(Global::ColorManager) <==> name == "wp_color_manager_v1"@,
{
    reveal_strlit("wl_compositor");
    reveal_strlit("wl_shm");
    reveal_strlit("wl_output");
    reveal_strlit("xdg_wm_base");
    reveal_strlit("wp_color_manager_v1");
    assert("wl_compositor"@.len() == 13 && "wl_shm"@.len() == 6 && "wl_output"@.len() == 9
        && "xdg_wm_base"@.len() == 11 && "wp_color_manager_v1"@.len() == 19);
}

/// A global is remembered as itself.
pub proof fn law_globals(a: App)
    ensures
        with_global(a, Global::Compositor).compositor,
        with_global(a, Global::Shm).shm,
        with_global(a, Global::Output).output,
        with_global(a, Global::WmBase).wm_base,
        with_global(a, Global::ColorManager).color_manager,
        with_global(a, Global::Compositor).shm == a.shm,
        with_global(a, Global::Shm).compositor == a.compositor,
        with_global(a, Global::WmBase).color_manager == a.color_manager,
        with_global(a, Global::ColorManager).output == a.output,
{
}

/// What the arguments so far were understood as.
pub open spec fn understood(args: Seq<Seq<char>>) -> Result<ParsedArgs, ArgErrorView> {
    args_from(args, 0, TestMode::Simple, TransferTag::Linear)
}

/// Each argument has its effect behind any others: the last transfer holds, the
/// path through the descriptions stays asked for, and a call for help is heard
/// once what stands before it was understood.
pub proof fn law_arguments(args: Seq<Seq<char>>, word: Seq<char>)
    requires
        understood(args) is Ok && understood(args)->Ok_0 is Run,
    ensures
        ({
            let before = understood(args)->Ok_0;
            &&& understood(args.push("--chrome-path"@)) == Ok::<ParsedArgs, ArgErrorView>(
                ParsedArgs::Run { mode: TestMode::ChromePath, transfer: before->transfer },
            )
            &&& understood(args.push("--help"@)) == Ok::<ParsedArgs, ArgErrorView>(
                ParsedArgs::Help,
            )
            &&& understood(args.push("-h"@)) == Ok::<ParsedArgs, ArgErrorView>(ParsedArgs::Help)
            &&& understood(args.push("--transfer"@)) == Err::<ParsedArgs, ArgErrorView>(
                ArgErrorView::MissingTransfer,
            )
            &&& understood(args.push("--transfer"@).push(word)) == understood(
                args.push("-t"@).push(word),
            )
            &&& understood(args.push("--transfer"@).push(word)) == match transfer_of(word) {
                Some(tag) => Ok::<ParsedArgs, ArgErrorView>(
                    ParsedArgs::Run { mode: before->mode, transfer: tag },
                ),
                None => Err::<ParsedArgs, ArgErrorView>(
                    ArgErrorView::UnknownTransfer { value: lowered(word) },
                ),
            }
            &&& word != "--chrome-path"@ && word != "--help"@ && word != "-h"@ && word
                != "--transfer"@ && word != "-t"@ ==> understood(args.push(word)) == Err::<
                ParsedArgs,
                ArgErrorView,
            >(ArgErrorView::UnknownArgument { value: word })
        }),
        understood(Seq::empty()) == Ok::<ParsedArgs, ArgErrorView>(
            ParsedArgs::Run { mode: TestMode::Simple, transfer: TransferTag::Linear },
        ),
{
    let simple = TestMode::Simple;
    let linear = TransferTag::Linear;
    lemma_more_arguments(args, seq!["--chrome-path"@], 0, simple, linear);
    lemma_more_arguments(args, seq!["--help"@], 0, simple, linear);
    lemma_more_arguments(args, seq!["-h"@], 0, simple, linear);
    lemma_more_arguments(args, seq!["--transfer"@], 0, simple, linear);
    lemma_more_arguments(args, seq!["--transfer"@, word], 0, simple, linear);
    lemma_more_arguments(args, seq!["-t"@, word], 0, simple, linear);
    lemma_more_arguments(args, seq![word], 0, simple, linear);
    assert(args + seq!["--chrome-path"@] =~= args.push("--chrome-path"@));
    assert(args + seq!["--help"@] =~= args.push("--help"@));
    assert(args + seq!["-h"@] =~= args.push("-h"@));
    assert(args + seq!["--transfer"@] =~= args.push("--transfer"@));
    assert(args + seq!["--transfer"@, word] =~= args.push("--transfer"@).push(word));
    assert(args + seq!["-t"@, word] =~= args.push("-t"@).push(word));
    assert(args + seq![word] =~= args.push(word));
    lemma_option_words();
    let before = understood(args)->Ok_0;
    reveal_with_fuel(args_from, 3);
    assert(seq!["--chrome-path"@][0] == "--chrome-path"@);
    assert(seq!["--transfer"@, word][0] == "--transfer"@);
    assert(seq!["--transfer"@, word][1] == word);
    assert(seq!["-t"@, word][0] == "-t"@);
    assert(seq!["-t"@, word][1] == word);
}

proof fn lemma_option_words()
    ensures
        "--help"@ != "-h"@,
        "--chrome-path"@ != "--help"@,
        "--chrome-path"@ != "-h"@,
        "--transfer"@ != "--help"@,
        "--transfer"@ != "-h"@,
        "--transfer"@ != "--chrome-path"@,
        "-t"@ != "--help"@,
        "-t"@ != "-h"@,
        "-t"@ != "--chrome-path"@,
{
    reveal_strlit("--help");
    reveal_strlit("-h");
    reveal_strlit("--chrome-path");
    reveal_strlit("--transfer");
    reveal_strlit("-t");
    assert("--help"@.len() == 6 && "-h"@.len() == 2 && "--chrome-path"@.len() == 13
        && "--transfer"@.len() == 10 && "-t"@.len() == 2);
    assert("-h"@[1] != "-t"@[1]);
}

/// Arguments that were understood are understood the same with more behind them.
proof fn lemma_more_arguments(
    args: Seq<Seq<char>>,
    more: Seq<Seq<char>>,
    i: int,
    mode: TestMode,
    transfer: TransferTag,
)
    requires
        0 <= i <= args.len(),
        args_from(args, i, mode, transfer) is Ok,
        args_from(args, i, mode, transfer)->Ok_0 is Run,
    ensures
        ({
            let before = args_from(args, i, mode, transfer)->Ok_0;
            args_from(args + more, i, mode, transfer) == args_from(
                more,
                0,
                before->mode,
                before->transfer,
            )
        }),
    decreases args.len() - i,
{
    let all = args + more;
    if i == args.len() {
        lemma_shifted_arguments(args, more, 0, mode, transfer);
    } else {
        assert(all[i] == args[i]);
        if args[i] == "--chrome-path"@ {
            lemma_more_arguments(args, more, i + 1, TestMode::ChromePath, transfer);
        } else {
            assert(i + 1 < args.len());
            assert(all[i + 1] == args[i + 1]);
            lemma_more_arguments(args, more, i + 2, mode, transfer_of(args[i + 1])->Some_0);
        }
    }
}

proof fn lemma_shifted_arguments(
    args: Seq<Seq<char>>,
    more: Seq<Seq<char>>,
    i: int,
    mode: TestMode,
    transfer: TransferTag,
)
    requires
        i >= 0,
    ensures
        args_from(args + more, args.len() + i, mode, transfer) == args_from(
            more,
            i,
            mode,
            transfer,
        ),
    decreases more.len() - i,
{
    let all = args + more;
    let n = args.len() as int;
    if i < more.len() {
        assert(all[n + i] == more[i]);
        lemma_shifted_arguments(args, more, i + 1, TestMode::ChromePath, transfer);
        if i + 1 < more.len() {
            assert(all[n + i + 1] == more[i + 1]);
            if transfer_of(more[i + 1]) is Some {
                lemma_shifted_arguments(args, more, i + 2, mode, transfer_of(more[i + 1])->Some_0);
            }
        }
    }
}

/// A pixel of the pattern is opaque and has one colour, the first in the left
/// half and the second in the right one; no two rows differ.
pub proof fn law_pattern(x: int, y: int, left: u8, right: u8)
    requires
        0 <= x < 256,
        0 <= y < 256,
    ensures
        pattern_byte(1024 * y + 4 * x + 1, left, right) == if x < 128 {
            left
        } else {
            right
        },
        pattern_byte(1024 * y + 4 * x + 3, left, right) == 255,
        pattern_byte(1024 * y + 4 * x, left, right) == 0,
        pattern_byte(1024 * y + 4 * x + 2, left, right) == 0,
{
}

} // verus!
