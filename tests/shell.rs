use tifflin_async::{
    open_exec, start_app, start_app_console, start_app_editor, start_app_filebrowser, AppLaunch,
    Handoff, OpenMode,
};

#[test]
fn console_launch() {
    let app = start_app_console();
    assert_eq!(app.args, vec!["/sysroot/bin/simple_console", "--windowed"]);
    assert!(matches!(app.handoff, Handoff::VfsRoot));
}

#[test]
fn filebrowser_launch() {
    let app = start_app_filebrowser();
    assert_eq!(app.args, vec!["/sysroot/bin/filebrowser"]);
    assert!(matches!(app.handoff, Handoff::VfsRoot));
}

#[test]
fn editor_launch_hands_over_document_read_only() {
    let app = start_app_editor();
    assert_eq!(app.args, vec!["/sysroot/bin/fileviewer", "/system/1.txt"]);
    match app.handoff {
        Handoff::File(f) => {
            assert_eq!(f.path, "/system/1.txt");
            assert_eq!(f.mode, OpenMode::ReadOnly);
        }
        _ => panic!("editor must receive its document"),
    }
}

#[test]
fn open_exec_asks_for_execute() {
    let r = open_exec("/sysroot/bin/filebrowser");
    assert_eq!(r.path, "/sysroot/bin/filebrowser");
    assert_eq!(r.mode, OpenMode::Execute);
}

#[test]
fn start_app_splits_image_and_arguments() {
    let p = start_app(&start_app_editor());
    assert_eq!(p.image.path, "/sysroot/bin/fileviewer");
    assert_eq!(p.image.mode, OpenMode::Execute);
    assert_eq!(p.name, "/sysroot/bin/fileviewer");
    assert_eq!(p.args, vec!["/system/1.txt"]);
    assert_eq!(p.sends.len(), 2);
    assert!(matches!(p.sends[0], Handoff::GuiGroup));
    assert!(matches!(p.sends[1], Handoff::File(_)));
}

#[test]
fn start_app_with_image_only() {
    let app = AppLaunch { args: vec!["/bin/x"], handoff: Handoff::VfsRoot };
    let p = start_app(&app);
    assert_eq!(p.name, "/bin/x");
    assert!(p.args.is_empty());
    assert!(matches!(p.sends[1], Handoff::VfsRoot));
}
