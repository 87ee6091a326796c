use redbpf_core::events::{Event, EventStream};
use redbpf_core::loader::{LoadEvent, ModuleLoad, ResourceArena};
use redbpf_core::tools::{outer_name, parse_diskstat_line, parse_diskstats_lines, probe_code};
use redbpf_core::CommandError;

fn ev(cpu: u32, n: u8) -> Event {
    Event { cpu, seq: n as u64, lost: 0, data: vec![n] }
}

#[test]
fn cancel_after_some_events() {
    let mut s = EventStream::new();
    s.push(vec![ev(0, 1), ev(0, 2)]);
    s.push(vec![ev(1, 3)]);
    assert_eq!(s.next().unwrap().data, vec![1]);
    assert_eq!(s.next().unwrap().data, vec![2]);
    s.cancel();
    assert!(s.is_cancelled());
    assert!(s.next().is_none());
    s.push(vec![ev(0, 4)]);
    assert!(s.next().is_none());
}

#[test]
fn events_come_in_order_once() {
    let mut s = EventStream::new();
    s.push(vec![Event { cpu: 2, seq: 41, lost: 5, data: vec![7, 8] }]);
    let e = s.next().unwrap();
    assert_eq!((e.cpu, e.seq, e.lost, e.data), (2, 41, 5, vec![7, 8]));
    assert!(s.next().is_none());
}

#[test]
fn diskstat_lines() {
    let r = parse_diskstat_line(b"   8       0 sda 1 2 3").unwrap();
    assert_eq!(r, (8, 0, b"sda".to_vec()));
    assert_eq!(parse_diskstat_line(b"259 1 nvme0n1p1"), Some((259, 1, b"nvme0n1p1".to_vec())));
    assert_eq!(parse_diskstat_line(b"8 x sda"), None);
    assert_eq!(parse_diskstat_line(b"8 0"), None);
    assert_eq!(parse_diskstat_line(b"99999999999 0 sda"), None);
}

#[test]
fn image_path_and_wrapper_name() {
    assert_eq!(probe_code(b"/out"), b"/out/target/bpf/programs/iotop/iotop.elf".to_vec());
    assert_eq!(outer_name(b"clone_enter"), b"outer_clone_enter".to_vec());
}

#[test]
fn command_error_from_io() {
    let e = std::io::Error::new(std::io::ErrorKind::Other, "disk gone");
    let c = CommandError::from(e);
    assert_eq!(c.0, "disk gone");
}

#[test]
fn arena_releases_each_handle_once() {
    let mut a = ResourceArena::new();
    a.hold(3);
    a.hold(5);
    assert_eq!(a.len(), 2);
    assert_eq!(a.release_all(), vec![3, 5]);
    assert_eq!(a.release_all(), Vec::<u32>::new());
    assert_eq!(a.len(), 0);
}

#[test]
fn diskstat_signed_numbers() {
    assert_eq!(parse_diskstat_line(b"-2147483648 +7 x"), Some((-2147483648, 7, b"x".to_vec())));
    assert_eq!(parse_diskstat_line(b"2147483647 -0 y"), Some((2147483647, 0, b"y".to_vec())));
    assert_eq!(parse_diskstat_line(b"2147483648 0 z"), None);
    assert_eq!(parse_diskstat_line(b"-2147483649 0 z"), None);
    assert_eq!(parse_diskstat_line(b"- 0 z"), None);
    assert_eq!(parse_diskstat_line(b"+-1 0 z"), None);
}

#[test]
fn diskstats_later_line_wins() {
    let lines = vec![b"8 0 sda 1".to_vec(), b"8 1 sda1 2".to_vec(), b"8 0 sdz 3".to_vec()];
    let t = parse_diskstats_lines(&lines).unwrap();
    assert_eq!(t.entries.len(), 3);
    assert_eq!(t.name_of(8, 0), Some(&b"sdz".to_vec()));
    assert_eq!(t.name_of(8, 1), Some(&b"sda1".to_vec()));
    assert_eq!(t.name_of(9, 0), None);
    assert!(parse_diskstats_lines(&vec![b"8 0 sda".to_vec(), b"oops".to_vec()]).is_none());
}

#[test]
fn module_load_releases_on_every_path() {
    let mut m = ModuleLoad::new();
    assert!(m.step(LoadEvent::Acquired(3)).is_empty());
    assert!(m.step(LoadEvent::Acquired(4)).is_empty());
    assert!(m.step(LoadEvent::ProgramFailed).is_empty());
    assert_eq!(m.step(LoadEvent::MapFailed), vec![3, 4]);
    assert_eq!(m.step(LoadEvent::Acquired(9)), vec![9]);
    assert!(m.step(LoadEvent::Close).is_empty());

    let mut n = ModuleLoad::new();
    n.step(LoadEvent::Acquired(1));
    assert_eq!(n.step(LoadEvent::Close), vec![1]);
    assert!(n.step(LoadEvent::Close).is_empty());
}
