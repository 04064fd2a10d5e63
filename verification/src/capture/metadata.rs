//! What is known about the application in front.

use vstd::prelude::*;

verus! {

/// Metadata about the currently focused application.
#[derive(Debug, Clone, PartialEq, Eq)]
pub struct AppMetadata {
    /// Display name of the frontmost app (e.g., "Safari").
    pub app_name: Option<String>,
    /// Bundle identifier (e.g., "com.apple.Safari").
    pub app_bundle_id: Option<String>,
    /// Title of the focused window (e.g., "Google - Safari").
    pub window_title: Option<String>,
}

impl Default for AppMetadata {
    fn default() -> (r: Self)
        ensures
            r.app_name is None,
            r.app_bundle_id is None,
            r.window_title is None,
    {
        AppMetadata { app_name: None, app_bundle_id: None, window_title: None }
    }
}

/// The frontmost application, as the workspace reports it.
#[derive(Debug, Clone, PartialEq, Eq)]
pub struct FrontmostApp {
    pub name: Option<String>,
    pub bundle_id: Option<String>,
    pub pid: i32,
}

/// A window on the screen, as the window list reports it: what it does not say is missing.
#[derive(Debug, Clone, PartialEq, Eq)]
pub struct WindowInfo {
    pub owner_pid: Option<i32>,
    pub layer: Option<i32>,
    pub name: Option<String>,
}

impl WindowInfo {
    /// Whether this is a normal-layer window of the process, with a title.
    pub open spec fn titled_for(self, pid: i32) -> bool {
        &&& self.owner_pid == Some(pid)
        &&& self.layer == Some(0i32)
        &&& self.name is Some
        &&& self.name->0@.len() > 0
    }
}

/// Whether `title` is that of the first titled normal-layer window of the process.
pub open spec fn first_title(windows: Seq<WindowInfo>, pid: i32, title: Option<String>) -> bool {
    match title {
        Some(text) => exists|i: int|
            {
                &&& 0 <= i < windows.len()
                &&& (#[trigger] windows[i]).titled_for(pid)
                &&& windows[i].name->0@ == text@
                &&& forall|j: int| 0 <= j < i ==> !(#[trigger] windows[j]).titled_for(pid)
            },
        None => forall|j: int| 0 <= j < windows.len() ==> !(#[trigger] windows[j]).titled_for(pid),
    }
}

fn is(value: Option<i32>, wanted: i32) -> (r: bool)
    ensures
        r == (value == Some(wanted)),
{
    match value {
        Some(n) => n == wanted,
        None => false,
    }
}

/// Get the title of the topmost normal-layer window for a given process.
///
/// The windows are in front-to-back order. `None` if the app has no windows or their titles
/// aren't accessible.
pub fn get_window_title_for_pid(windows: &[WindowInfo], target_pid: i32) -> (r: Option<String>)
    ensures
        first_title(windows@, target_pid, r),
{
    let mut i: usize = 0;
    while i < windows.len()
        invariant
            i <= windows@.len(),
            forall|j: int| 0 <= j < i ==> !(#[trigger] windows@[j]).titled_for(target_pid),
        decreases windows@.len() - i,
    {
        let window = &windows[i];
        if is(window.owner_pid, target_pid) && is(window.layer, 0) {
            if let Some(name) = &window.name {
                let title = crate::text::owned(name.as_str());
                if crate::text::chars_of(name.as_str()).len() > 0 {
                    assert(windows@[i as int].titled_for(target_pid));
                    return Some(title);
                }
            }
        }
        i += 1;
    }
    None
}

/// Put together what is known about the focused application and its window title.
///
/// Never fails. What is not known is `None`.
pub fn get_frontmost_app(app: Option<FrontmostApp>, windows: &[WindowInfo]) -> (r: AppMetadata)
    ensures
        app is None ==> r.app_name is None && r.app_bundle_id is None && r.window_title is None,
        app is Some ==> {
            &&& r.app_name == app->0.name
            &&& r.app_bundle_id == app->0.bundle_id
            &&& first_title(windows@, app->0.pid, r.window_title)
        },
{
    match app {
        None => AppMetadata { app_name: None, app_bundle_id: None, window_title: None },
        Some(front) => {
            let window_title = get_window_title_for_pid(windows, front.pid);
            AppMetadata { app_name: front.name, app_bundle_id: front.bundle_id, window_title }
        },
    }
}

/// There is only one first title.
pub proof fn the_title_is_settled(
    windows: Seq<WindowInfo>,
    pid: i32,
    a: Option<String>,
    b: Option<String>,
)
    requires
        first_title(windows, pid, a),
        first_title(windows, pid, b),
    ensures
        a is Some <==> b is Some,
        a is Some ==> a->0@ == b->0@,
{
    if a is Some && b is Some {
        let i = choose|i: int|
            {
                &&& 0 <= i < windows.len()
                &&& (#[trigger] windows[i]).titled_for(pid)
                &&& windows[i].name->0@ == a->0@
                &&& forall|j: int| 0 <= j < i ==> !(#[trigger] windows[j]).titled_for(pid)
            };
        let k = choose|k: int|
            {
                &&& 0 <= k < windows.len()
                &&& (#[trigger] windows[k]).titled_for(pid)
                &&& windows[k].name->0@ == b->0@
                &&& forall|j: int| 0 <= j < k ==> !(#[trigger] windows[j]).titled_for(pid)
            };
        assert(i == k);
    }
}

/// The title of a process is that of its first window in front that is on the normal layer and
/// has one: windows of others, on other layers, or without a title do not count.
pub proof fn a_title_is_that_of_the_first_window(
    windows: &[WindowInfo],
    pid: i32,
    r: Option<String>,
    i: int,
)
    requires
        call_ensures(get_window_title_for_pid, (windows, pid), r),
        0 <= i < windows@.len(),
        windows@[i].owner_pid == Some(pid),
        windows@[i].layer == Some(0i32),
        windows@[i].name is Some,
        windows@[i].name->0@.len() > 0,
        forall|j: int|
            0 <= j < i ==> (#[trigger] windows@[j]).owner_pid != Some(pid) || windows@[j].layer
                != Some(0i32) || windows@[j].name is None || windows@[j].name->0@.len() == 0,
    ensures
        r is Some,
        r->0@ == windows@[i].name->0@,
{
    assert(windows@[i].titled_for(pid));
    if r is Some {
        let k = choose|k: int|
            {
                &&& 0 <= k < windows@.len()
                &&& (#[trigger] windows@[k]).titled_for(pid)
                &&& windows@[k].name->0@ == r->0@
                &&& forall|j: int| 0 <= j < k ==> !(#[trigger] windows@[j]).titled_for(pid)
            };
        assert(k == i);
    }
}

/// Without such a window there is no title.
pub proof fn without_a_titled_window_there_is_no_title(
    windows: &[WindowInfo],
    pid: i32,
    r: Option<String>,
)
    requires
        call_ensures(get_window_title_for_pid, (windows, pid), r),
        forall|j: int|
            0 <= j < windows@.len() ==> (#[trigger] windows@[j]).owner_pid != Some(pid)
                || windows@[j].layer != Some(0i32) || windows@[j].name is None
                || windows@[j].name->0@.len() == 0,
    ensures
        r is None,
{
}

/// What is known of the application in front is what the workspace says, with the title of its
/// own window.
pub proof fn the_application_in_front_has_its_own_title(
    app: Option<FrontmostApp>,
    windows: &[WindowInfo],
    title: Option<String>,
    r: AppMetadata,
)
    requires
        call_ensures(get_frontmost_app, (app, windows), r),
        app is Some ==> call_ensures(get_window_title_for_pid, (windows, app->0.pid), title),
    ensures
        app is None ==> r.app_name is None && r.app_bundle_id is None && r.window_title is None,
        app is Some ==> {
            &&& r.app_name == app->0.name
            &&& r.app_bundle_id == app->0.bundle_id
            &&& r.window_title is Some <==> title is Some
            &&& title is Some ==> r.window_title->0@ == title->0@
        },
{
    if app is Some {
        the_title_is_settled(windows@, app->0.pid, r.window_title, title);
    }
}

} // verus!
