use vstd::prelude::*;

verus! {

/// Image of the console application.
pub const CONSOLE_IMAGE: &'static str = "/sysroot/bin/simple_console";

/// Image of the file browser.
pub const FILEBROWSER_IMAGE: &'static str = "/sysroot/bin/filebrowser";

/// Image of the file viewer used as the text editor.
pub const VIEWER_IMAGE: &'static str = "/sysroot/bin/fileviewer";

/// The document that the text editor opens.
pub const EDITOR_DOCUMENT: &'static str = "/system/1.txt";

/// How a file below the filesystem root is opened.
#[derive(PartialEq, Eq, Structural, Debug, Clone, Copy)]
pub enum OpenMode {
    ReadOnly,
    Execute,
}

/// A file to open below the filesystem root.
#[derive(Debug, Clone, Copy)]
pub struct FileRequest {
    pub path: &'static str,
    pub mode: OpenMode,
}

/// An object that the session hands to a new process before starting it.
#[derive(Debug, Clone, Copy)]
pub enum Handoff {
    /// The session's GUI group handle.
    GuiGroup,
    /// The root of the filesystem.
    VfsRoot,
    /// A file, opened as the request says before the process is created.
    File(FileRequest),
}

/// What the session needs to start an application: its command line (image
/// path first) and the object to hand it.
pub struct AppLaunch {
    pub args: Vec<&'static str>,
    pub handoff: Handoff,
}

/// The steps that start a process: open its image, create it under its name
/// with its arguments, send it each object in order, then start it.
pub struct ProcessStart {
    pub image: FileRequest,
    pub name: &'static str,
    pub args: Vec<&'static str>,
    pub sends: Vec<Handoff>,
}

/// The console application, in a window, given the filesystem root.
pub fn start_app_console() -> (r: AppLaunch)
    ensures
        r.args@ == seq![CONSOLE_IMAGE, "--windowed"],
        r.handoff == Handoff::VfsRoot,
{
    let args: Vec<&'static str> = vec![CONSOLE_IMAGE, "--windowed"];
    proof {
        assert(args@ =~= seq![CONSOLE_IMAGE, "--windowed"]);
    }
    AppLaunch { args, handoff: Handoff::VfsRoot }
}

/// The file browser, given the filesystem root.
pub fn start_app_filebrowser() -> (r: AppLaunch)
    ensures
        r.args@ == seq![FILEBROWSER_IMAGE],
        r.handoff == Handoff::VfsRoot,
{
    let args: Vec<&'static str> = vec![FILEBROWSER_IMAGE];
    proof {
        assert(args@ =~= seq![FILEBROWSER_IMAGE]);
    }
    AppLaunch { args, handoff: Handoff::VfsRoot }
}

/// The file viewer on the editor's document, given that document opened
/// read-only.
pub fn start_app_editor() -> (r: AppLaunch)
    ensures
        r.args@ == seq![VIEWER_IMAGE, EDITOR_DOCUMENT],
        r.handoff == Handoff::File(FileRequest { path: EDITOR_DOCUMENT, mode: OpenMode::ReadOnly }),
{
    let path = EDITOR_DOCUMENT;
    let doc = FileRequest { path, mode: OpenMode::ReadOnly };
    let args: Vec<&'static str> = vec![VIEWER_IMAGE, path];
    proof {
        assert(args@ =~= seq![VIEWER_IMAGE, EDITOR_DOCUMENT]);
    }
    AppLaunch { args, handoff: Handoff::File(doc) }
}

/// The request that opens `path` as an executable image.
pub fn open_exec(path: &'static str) -> (r: FileRequest)
    ensures
        r == (FileRequest { path, mode: OpenMode::Execute }),
{
    FileRequest { path, mode: OpenMode::Execute }
}

/// The steps that start `app`: its image is the first argument, opened for
/// execution, and also names the process; the other arguments follow; the GUI
/// group handle is sent before the application's own object.
pub fn start_app(app: &AppLaunch) -> (r: ProcessStart)
    requires
        app.args@.len() > 0,
    ensures
        r.image == open_exec_spec(app.args@[0]),
        r.name == app.args@[0],
        r.args@ == app.args@.subrange(1, app.args@.len() as int),
        r.sends@ == seq![Handoff::GuiGroup, app.handoff],
{
    let name = app.args[0];
    let image = open_exec(name);
    let mut args: Vec<&'static str> = Vec::new();
    let mut i: usize = 1;
    while i < app.args.len()
        invariant
            1 <= i <= app.args@.len(),
            args@ == app.args@.subrange(1, i as int),
        decreases app.args@.len() - i,
    {
        args.push(app.args[i]);
        proof {
            assert(args@ =~= app.args@.subrange(1, i + 1));
        }
        i = i + 1;
    }
    let sends: Vec<Handoff> = vec![Handoff::GuiGroup, app.handoff];
    proof {
        assert(sends@ =~= seq![Handoff::GuiGroup, app.handoff]);
    }
    ProcessStart { image, name, args, sends }
}

pub open spec fn open_exec_spec(path: &'static str) -> FileRequest {
    FileRequest { path, mode: OpenMode::Execute }
}

} // verus!
