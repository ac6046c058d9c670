use thane::platform::{
    children_from_ps, notification_script, pid_list, ppid_from_ps, ppid_from_status, NotifyUrgency,
};

#[test]
fn ppid_from_proc_status() {
    let status = "Name:\tbash\nState:\tS (sleeping)\nPid:\t4242\nPPid:\t4200\nUid:\t1000\n";
    assert_eq!(ppid_from_status(status), Some(4200));
    assert_eq!(ppid_from_status("Name:\tx\n"), None);
    assert_eq!(ppid_from_status("PPid:\tnope\nPPid:\t5\n"), None);
    assert_eq!(ppid_from_status("PPid:\t 17 \r\n"), Some(17));
}

#[test]
fn children_list() {
    assert_eq!(pid_list("12 34 56 \n"), vec![12, 34, 56]);
    assert_eq!(pid_list(""), Vec::<u32>::new());
    assert_eq!(pid_list("1 x 2"), vec![1, 2]);
}

#[test]
fn ps_outputs() {
    assert_eq!(ppid_from_ps("  123\n"), Some(123));
    assert_eq!(ppid_from_ps(""), None);
    let out = "  1     0\n 200     1\n 300   200\n 301   200\n bad line\n";
    assert_eq!(children_from_ps(out, 200), vec![300, 301]);
    assert_eq!(children_from_ps(out, 999), Vec::<u32>::new());
}

#[test]
fn macos_notification_script_escapes() {
    assert_eq!(
        notification_script("Build \"ok\"", "path\\to"),
        "display notification \"path\\\\to\" with title \"Build \\\"ok\\\"\""
    );
    let _ = NotifyUrgency::Critical;
}
