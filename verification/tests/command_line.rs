//! The command line, the configuration, the control requests and the errors.

use moruna::cli::{parse, parse_bytes, Command, USAGE};
use moruna::config::{
    default_control_path, default_vsock_path, DiskConfig, DiskFact, HostFacts, VmConfig,
    VsockConfig, GIB, MAX_DISKS, MAX_MEMORY_BYTES, MAX_VCPUS, MIB,
};
use moruna::control::{answer, handle, line_read, Controller, Line, LineRead, Request, Status};
use moruna::devices::{StopReason, StopSignal};
use moruna::error::{
    Result, VmmError, EXIT_CONFIG, EXIT_GUEST_PANIC, EXIT_MONITOR, EXIT_NO_CODE, EXIT_OK,
};

const TMP: &str = "/tmp";

fn args(s: &str) -> Vec<String> {
    s.split_whitespace().map(String::from).collect()
}

fn field_of(r: Result<Command>) -> &'static str {
    match r {
        Err(VmmError::Config { field, .. }) => field,
        other => panic!("expected a config error, got {other:?}"),
    }
}

#[test]
fn vm_t3_boot_parses_every_flag() {
    let c = parse(
        &args(
            "boot --image /img --disk /d1:ro --disk /d2 --disk /d3:rw --memory 1G \
             --memory-max 4GiB --cpus 2 --cpus-max 8 --vsock 42 --vsock-uds /tmp/v \
             --control=/tmp/c",
        ),
        TMP,
    )
    .unwrap();
    let Command::Boot(c) = c else { panic!() };
    assert_eq!(c.image, "/img");
    assert_eq!(
        c.disks,
        vec![
            DiskConfig {
                path: "/d1".into(),
                read_only: true
            },
            DiskConfig {
                path: "/d2".into(),
                read_only: false
            },
            DiskConfig {
                path: "/d3".into(),
                read_only: false
            },
        ]
    );
    assert_eq!((c.memory_bytes, c.memory_max_bytes), (GIB, 4 * GIB));
    assert_eq!((c.cpus, c.cpus_max), (2, 8));
    assert_eq!(c.vsock.cid, 42);
    assert_eq!(c.vsock.uds_path, "/tmp/v");
    assert_eq!(c.control_socket, "/tmp/c");
}

#[test]
fn vm_t3_boot_defaults_and_refusals() {
    let p = |s: &str| parse(&args(s), TMP);
    let Command::Boot(c) = p("boot --image i --memory 512M --cpus 1 --vsock 3").unwrap() else {
        panic!()
    };
    assert_eq!(c.memory_max_bytes, 512 * MIB);
    assert_eq!(c.cpus_max, 1);
    assert_eq!(c.vsock.uds_path, default_vsock_path(TMP, 3));
    assert_eq!(c.control_socket, default_control_path(TMP, 3));

    assert_eq!(field_of(p("boot --memory 1G --cpus 1 --vsock 3")), "--image");
    assert_eq!(field_of(p("boot --image i --cpus 1 --vsock 3")), "--memory");
    assert_eq!(field_of(p("boot --image i --memory 1G --vsock 3")), "--cpus");
    assert_eq!(field_of(p("boot --image i --memory 1G --cpus 1")), "--vsock");
    assert_eq!(field_of(p("boot --image i --net tap0")), "arguments");
    assert_eq!(field_of(p("boot --image i --image j")), "arguments");
    assert_eq!(field_of(p("boot --image")), "arguments");
    assert_eq!(field_of(p("boot image")), "arguments");
    assert_eq!(field_of(p("boot --cpus x")), "--cpus");
    assert_eq!(field_of(p("boot --disk :ro")), "--disk");
    assert_eq!(field_of(p("")), "command");
    assert_eq!(field_of(p("start")), "command");
}

#[test]
fn vm_t3_resize_status_stop() {
    let p = |s: &str| parse(&args(s), TMP);
    assert_eq!(
        p("resize --control /c --memory 2G").unwrap(),
        Command::Control {
            socket: "/c".into(),
            request: Request::ResizeMemory { bytes: 2 * GIB }
        }
    );
    assert_eq!(
        p("resize --vsock 9 --cpus 3").unwrap(),
        Command::Control {
            socket: default_control_path(TMP, 9),
            request: Request::ResizeCpus { cpus: 3 }
        }
    );
    assert_eq!(
        p("status --vsock 9").unwrap(),
        Command::Control {
            socket: default_control_path(TMP, 9),
            request: Request::Status
        }
    );
    assert_eq!(
        p("stop --control /c").unwrap(),
        Command::Control {
            socket: "/c".into(),
            request: Request::Stop
        }
    );
    assert_eq!(
        field_of(p("resize --control /c --memory 1G --cpus 2")),
        "resize"
    );
    assert_eq!(field_of(p("resize --control /c")), "resize");
    assert_eq!(field_of(p("resize --cpus 2")), "--control");
    assert_eq!(field_of(p("resize --control /c --disk x")), "arguments");
    assert_eq!(field_of(p("status")), "--control");
    assert_eq!(field_of(p("status --cpus 2")), "arguments");
    assert_eq!(p("--help").unwrap(), Command::Help);
    assert_eq!(p("-V").unwrap(), Command::Version);
    assert!(USAGE.contains("resize"));
}

#[test]
fn vm_t3_byte_counts() {
    for (s, v) in [
        ("4096", 4096),
        ("1K", 1024),
        ("1KiB", 1024),
        ("3M", 3 * MIB),
        ("2GiB", 2 * GIB),
        ("2GB", 2 * GIB),
        ("1T", 1 << 40),
        ("7B", 7),
    ] {
        assert_eq!(parse_bytes("--memory", s).unwrap(), v, "{s}");
    }
    for s in ["", "G", "1X", "-1", "99999999999999T"] {
        assert!(parse_bytes("--memory", s).is_err(), "{s}");
    }
}

#[test]
fn refusals_quote_what_was_given() {
    let text = |s: &str| parse_bytes("--memory", s).unwrap_err().to_string();
    assert_eq!(text("1X"), "config --memory: \"1X\" has an unknown suffix \"X\"");
    assert_eq!(text(" a\t"), "config --memory: \" a\\t\" is not a byte count");
    assert_eq!(
        text("99999999999999T"),
        "config --memory: \"99999999999999T\" overflows 64 bits"
    );
    assert_eq!(
        parse(&args("start"), TMP).unwrap_err().to_string(),
        "config command: unknown command \"start\"; one of boot, resize, status, stop"
    );
    // White space around a number is allowed, and so is a plus sign.
    let c = parse(
        &vec!["resize".into(), "--control".into(), "/c".into(), "--cpus= +3 ".into()],
        TMP,
    );
    assert_eq!(
        c.unwrap(),
        Command::Control {
            socket: "/c".into(),
            request: Request::ResizeCpus { cpus: 3 }
        }
    );
}

fn valid() -> VmConfig {
    VmConfig {
        image: "/scratch/image".into(),
        disks: vec![DiskConfig {
            path: "/scratch/data.img".into(),
            read_only: true,
        }],
        memory_bytes: 512 * MIB,
        memory_max_bytes: 2 * GIB,
        cpus: 1,
        cpus_max: 4,
        vsock: VsockConfig {
            cid: 3,
            uds_path: "/scratch/v.sock".into(),
        },
        control_socket: "/scratch/c.sock".into(),
    }
}

fn facts(c: &VmConfig) -> HostFacts {
    HostFacts {
        disks: c.disks.iter().map(|_| DiskFact::Usable).collect(),
        uds_dir_exists: true,
        control_dir_exists: true,
    }
}

fn refused_with(c: &VmConfig, f: &HostFacts, field: &str) {
    match c.validate(f) {
        Err(VmmError::Config { field: got, .. }) => assert_eq!(got, field),
        other => panic!("expected a refusal naming {field}, got {other:?}"),
    }
}

fn refused(c: &VmConfig, field: &str) {
    refused_with(c, &facts(c), field)
}

#[test]
fn vm_t1_config_refusals_name_the_field() {
    let ok = valid();
    ok.validate(&facts(&ok)).unwrap();
    assert_eq!(ok.hotplug_bytes(), 2 * GIB - 512 * MIB);

    let mut c = ok.clone();
    c.memory_bytes = 128 * MIB;
    refused(&c, "--memory");
    let mut c = ok.clone();
    c.memory_bytes = 512 * MIB + 4096;
    refused(&c, "--memory");
    let mut c = ok.clone();
    c.memory_max_bytes = 3 * GIB + 1;
    refused(&c, "--memory-max");
    let mut c = ok.clone();
    c.memory_max_bytes = 256 * MIB;
    refused(&c, "--memory-max");
    let mut c = ok.clone();
    c.memory_max_bytes = 2 * MAX_MEMORY_BYTES;
    refused(&c, "--memory-max");
    let mut c = ok.clone();
    c.cpus = 0;
    refused(&c, "--cpus");
    let mut c = ok.clone();
    c.cpus_max = 0;
    refused(&c, "--cpus-max");
    let mut c = ok.clone();
    c.cpus_max = MAX_VCPUS + 1;
    refused(&c, "--cpus-max");
    for cid in [0, 1, 2, u32::MAX] {
        let mut c = ok.clone();
        c.vsock.cid = cid;
        refused(&c, "--vsock");
    }
    let mut c = ok.clone();
    c.disks = (0..MAX_DISKS).map(|_| ok.disks[0].clone()).collect();
    refused(&c, "--disk");
    let mut f = facts(&ok);
    f.disks[0] = DiskFact::Missing("No such file or directory (os error 2)".into());
    refused_with(&ok, &f, "--disk");
    assert_eq!(
        ok.validate(&f).unwrap_err().to_string(),
        "config --disk: /scratch/data.img: No such file or directory (os error 2)"
    );
    f.disks[0] = DiskFact::Directory;
    refused_with(&ok, &f, "--disk");
    let mut c = ok.clone();
    c.control_socket = format!("/scratch/{}", "x".repeat(200));
    refused(&c, "--control");
    let mut c = ok.clone();
    c.control_socket = String::new();
    refused(&c, "--control");
    let mut c = ok.clone();
    c.vsock.uds_path = "/nonexistent-moruna-dir/v.sock".into();
    let mut f = facts(&c);
    f.uds_dir_exists = false;
    refused_with(&c, &f, "--vsock-uds");
    assert_eq!(
        c.validate(&f).unwrap_err().to_string(),
        "config --vsock-uds: directory /nonexistent-moruna-dir does not exist"
    );
    let mut c = ok.clone();
    c.control_socket = c.vsock.uds_path.clone();
    refused(&c, "--control");
    // Paths are the same when their components are.
    let mut c = ok.clone();
    c.control_socket = "/scratch//./v.sock".into();
    refused(&c, "--control");
    // A bare file name has no parent directory to check and is accepted.
    let mut c = ok.clone();
    c.control_socket = "c.sock".into();
    let mut f = facts(&c);
    f.control_dir_exists = false;
    c.validate(&f).unwrap();
    // The vsock socket leaves room for a port.
    let mut c = ok.clone();
    c.vsock.uds_path = format!("/{}", "v".repeat(92));
    refused(&c, "--vsock-uds");
    c.vsock.uds_path = format!("/{}", "v".repeat(91));
    c.validate(&facts(&c)).unwrap();
}

#[test]
fn vm_t1_defaults_derive_from_the_cid() {
    let c = VmConfig::with_defaults("img".into(), vec![], 512 * MIB, 2, 7, TMP);
    assert_eq!(c.memory_max_bytes, c.memory_bytes);
    assert_eq!(c.cpus_max, 2);
    assert!(c.vsock.uds_path.ends_with("moruna-vmm-7.vsock"));
    assert!(c.control_socket.ends_with("moruna-vmm-7.ctl"));
    assert_eq!(default_vsock_path("/tmp/", 7), "/tmp/moruna-vmm-7.vsock");
}

#[test]
fn vm_t7_every_error_has_its_exit_code() {
    let cases: Vec<(VmmError, i32, &str)> = vec![
        (
            VmmError::config("--memory", "zero"),
            EXIT_CONFIG,
            "config --memory: zero",
        ),
        (
            VmmError::NoKvm("absent".into()),
            EXIT_CONFIG,
            "/dev/kvm: absent",
        ),
        (
            VmmError::Image {
                path: "p".into(),
                msg: "m".into(),
            },
            EXIT_CONFIG,
            "image p: m",
        ),
        (
            VmmError::Unsupported("x".into()),
            EXIT_CONFIG,
            "unsupported: x",
        ),
        (
            VmmError::io("read", "f", &std::io::Error::other("e")),
            EXIT_MONITOR,
            "io read f: e",
        ),
        (
            VmmError::Hypervisor {
                op: "run",
                msg: "m".into(),
            },
            EXIT_MONITOR,
            "kvm run: m",
        ),
        (VmmError::device("blk", "m"), EXIT_MONITOR, "device blk: m"),
        (VmmError::Control("c".into()), EXIT_MONITOR, "control: c"),
    ];
    for (e, code, text) in cases {
        assert_eq!(e.exit_code(), code, "{text}");
        assert_eq!(e.to_string(), text);
    }
    // Distinct from every code Moruna uses.
    for c in [EXIT_NO_CODE, EXIT_MONITOR, EXIT_GUEST_PANIC] {
        assert!(![0, 2, 3, 4, 5, 130].contains(&c));
    }
    assert_eq!(EXIT_OK, 0);
}

#[test]
fn vm_t7_errors_cross_into_the_shared_type() {
    let m = VmmError::config("--cpus", "zero").into_shared();
    assert_eq!(m.to_string(), "config --cpus: zero");
    let m = VmmError::Io {
        op: "o",
        target: "t".into(),
        msg: "m".into(),
    }
    .into_shared();
    assert_eq!(m.to_string(), "io o t: m");
    let m = VmmError::Unsupported("u".into()).into_shared();
    assert_eq!(m.to_string(), "config vm: unsupported: u");
    let m = VmmError::NoKvm("gone".into()).into_shared();
    assert_eq!(m.to_string(), "io vm moruna-vmm: /dev/kvm: gone");
}

struct Fake {
    s: Status,
    stop: StopSignal,
}

impl Controller for Fake {
    fn resize_memory(&mut self, bytes: u64) -> Result<Status> {
        if bytes > self.s.memory_max_bytes {
            return Err(VmmError::Control("above --memory-max".into()));
        }
        self.s.memory_bytes = bytes;
        Ok(self.s)
    }
    fn resize_cpus(&mut self, cpus: u32) -> Result<Status> {
        self.s.cpus = cpus;
        Ok(self.s)
    }
    fn status(&self) -> Status {
        let mut s = self.s;
        s.stopped = self.stop.is_stopped();
        s
    }
    fn stop(&mut self) {
        self.stop.request(StopReason::Killed);
    }
}

fn fake() -> Fake {
    Fake {
        s: Status {
            memory_bytes: 1 << 30,
            memory_plugged_bytes: 1 << 30,
            memory_max_bytes: 4 << 30,
            cpus: 1,
            cpus_max: 4,
            stopped: false,
        },
        stop: StopSignal::default(),
    }
}

#[test]
fn requests_are_carried_out_or_refused() {
    let mut f = fake();
    let r = handle(&mut f, &Request::ResizeMemory { bytes: 2 << 30 });
    assert!(r.ok);
    assert_eq!(r.status.unwrap().memory_bytes, 2 << 30);
    let r = handle(&mut f, &Request::ResizeMemory { bytes: 8 << 30 });
    assert!(!r.ok);
    assert_eq!(r.error.unwrap(), "control: above --memory-max");
    let r = handle(&mut f, &Request::ResizeCpus { cpus: 3 });
    assert_eq!(r.status.unwrap().cpus, 3);
    assert!(!handle(&mut f, &Request::Status).status.unwrap().stopped);
    // Garbage and an over-long line get an error answer; only the latter closes.
    let (r, close) = answer(&mut f, Line::Bad("expected value".into()));
    assert_eq!(
        (r.error.unwrap().as_str(), close),
        ("control: bad request: expected value", false)
    );
    let (r, close) = answer(&mut f, Line::TooLong);
    assert_eq!(
        (r.error.unwrap().as_str(), close),
        ("control: request longer than 4096 bytes", true)
    );
    let (r, close) = answer(&mut f, Line::Good(Request::Stop));
    assert!(r.status.unwrap().stopped && !close);
    assert_eq!(line_read(0), LineRead::Closed);
    assert_eq!(line_read(4096), LineRead::Whole);
    assert_eq!(line_read(4097), LineRead::TooLong);
}

#[test]
fn a_guest_is_found_by_its_cid() {
    let boot = parse(&args("boot --image i --memory 512M --cpus 1 --vsock 42"), TMP).unwrap();
    let Command::Boot(c) = boot else { panic!() };
    for line in ["status --vsock 42", "stop --vsock=42", "resize --vsock 42 --cpus 2"] {
        match parse(&args(line), TMP).unwrap() {
            Command::Control { socket, .. } => assert_eq!(socket, c.control_socket),
            other => panic!("{other:?}"),
        }
    }
}
