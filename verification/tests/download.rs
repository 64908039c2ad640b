use swu::command::{CommandError, Output};
use swu::download::{download, DownloadError, Step, CHIPID_OFF, HALT_OFF};
use swu::enclosure::EnclosureError;
use swu::image::DownloadFileType;

const LISTING: &str = "[0:0:0:0]    disk    ATA      ST1000NM0033     SN04  /dev/sda   /dev/sg0\n\
                       [8:0:0:0]    enclosu LSI      SAS3x40          0601  -          /dev/sg3\n";

fn ok(stdout: &str) -> Output {
    Output { success: true, stdout: stdout.as_bytes().to_vec(), stderr: Vec::new() }
}

fn failed(stderr: &str) -> Output {
    Output { success: false, stdout: Vec::new(), stderr: stderr.as_bytes().to_vec() }
}

/// Runs the download of `file` against programs that end as `outputs` say,
/// and gives the commands that were issued with the step that it stopped at.
fn run(file: DownloadFileType, outputs: Vec<Output>) -> (Vec<String>, Step) {
    let mut issued = Vec::new();
    let mut step = download(file);
    for output in outputs {
        match step {
            Step::Run(state, prepared) => {
                let mut words = vec![prepared.program.clone()];
                words.extend(prepared.args.iter().cloned());
                assert_eq!(words.join(" "), prepared.command);
                issued.push(prepared.command);
                step = state.advance(output);
            },
            other => return (issued, other),
        }
    }
    if let Step::Run(_, prepared) = &step {
        issued.push(prepared.command.clone());
    }
    (issued, step)
}

fn successes(listing: &str, count: usize) -> Vec<Output> {
    let mut outputs = vec![ok(listing)];
    for _ in 0..count {
        outputs.push(ok(""));
    }
    outputs
}

#[test]
fn preconditioning_commands_have_the_documented_text() {
    assert_eq!(HALT_OFF, "ps3cli /psw0 custom pcieswitch halt off");
    assert_eq!(CHIPID_OFF, "ps3cli /psw0 custom pcieswitch chipid off");
}

#[test]
fn download_starts_with_the_listing() {
    match download(DownloadFileType::Firmware(String::from("fw.bin"))) {
        Step::Run(_, prepared) => {
            assert_eq!(prepared.command, "lsscsi -g");
            assert_eq!(prepared.program, "lsscsi");
            assert_eq!(prepared.args, vec!["-g"]);
        },
        other => panic!("{:?}", other),
    }
}

#[test]
fn typed_images_take_three_commands_after_the_listing() {
    let cases = [
        (DownloadFileType::Bootloader(String::from("boot.bin")), "ps3cli /psw0 download file=boot.bin fwtype=2"),
        (DownloadFileType::Firmware(String::from("fw.bin")), "ps3cli /psw0 download file=fw.bin fwtype=4"),
        (DownloadFileType::Nvdata(String::from("nv.bin")), "ps3cli /psw0 download file=nv.bin fwtype=6"),
        (DownloadFileType::Userdefault(String::from("ud.bin")), "ps3cli /psw0 download file=ud.bin fwtype=15"),
        (DownloadFileType::Package(String::from("all.pkg")), "ps3cli /psw0 download file=all.pkg"),
    ];
    for (file, last) in cases {
        let (issued, step) = run(file, successes(LISTING, 3));
        assert_eq!(
            issued,
            vec![
                "lsscsi -g",
                "ps3cli /psw0 custom pcieswitch halt off",
                "ps3cli /psw0 custom pcieswitch chipid off",
                last,
            ]
        );
        assert!(matches!(step, Step::Finished));
    }
}

#[test]
fn full_flash_is_split_and_written_in_two_parts() {
    let (issued, step) = run(DownloadFileType::Flash32M(String::from("flash.bin")), successes(LISTING, 5));
    assert_eq!(
        issued,
        vec![
            "lsscsi -g",
            "ps3cli /psw0 custom pcieswitch halt off",
            "ps3cli /psw0 custom pcieswitch chipid off",
            "split -b 16M -d -a 1 flash.bin flash.bin_",
            "sg_write_buffer -m 0x1d -b 4k -l 16M /dev/sg3 -I flash.bin_0",
            "sg_write_buffer -m 0x1d -b 4k -l 16M /dev/sg3 -I flash.bin_1",
        ]
    );
    assert!(matches!(step, Step::Finished));
    let writes: Vec<&String> = issued.iter().filter(|c| c.starts_with("sg_write_buffer")).collect();
    assert_eq!(writes.len(), 2);
}

#[test]
fn download_is_not_finished_before_the_last_command_has_ended() {
    let (issued, step) = run(DownloadFileType::Flash32M(String::from("f")), successes(LISTING, 4));
    assert_eq!(issued.len(), 6);
    assert!(matches!(step, Step::Run(_, _)));
    let (issued, step) = run(DownloadFileType::Package(String::from("p")), successes(LISTING, 2));
    assert_eq!(issued.len(), 4);
    assert!(matches!(step, Step::Run(_, _)));
}

#[test]
fn the_device_comes_from_the_listing() {
    let (issued, _) = run(
        DownloadFileType::Flash32M(String::from("dir/f.img")),
        successes("[1:0:0:0] enclosu X /dev/sg41\n", 5),
    );
    assert_eq!(issued[4], "sg_write_buffer -m 0x1d -b 4k -l 16M /dev/sg41 -I dir/f.img_0");
    assert_eq!(issued[5], "sg_write_buffer -m 0x1d -b 4k -l 16M /dev/sg41 -I dir/f.img_1");
}

#[test]
fn a_path_with_whitespace_is_split_like_the_rest() {
    match download(DownloadFileType::Package(String::from("my file.pkg"))) {
        Step::Run(state, _) => match state.advance(ok(LISTING)) {
            Step::Run(state, _) => match state.advance(ok("")) {
                Step::Run(state, _) => match state.advance(ok("")) {
                    Step::Run(_, prepared) => {
                        assert_eq!(prepared.command, "ps3cli /psw0 download file=my file.pkg");
                        assert_eq!(prepared.program, "ps3cli");
                        assert_eq!(prepared.args, vec!["/psw0", "download", "file=my", "file.pkg"]);
                    },
                    other => panic!("{:?}", other),
                },
                other => panic!("{:?}", other),
            },
            other => panic!("{:?}", other),
        },
        other => panic!("{:?}", other),
    }
}

#[test]
fn without_an_enclosure_no_device_command_is_issued() {
    let (issued, step) = run(
        DownloadFileType::Firmware(String::from("fw.bin")),
        vec![ok("[0:0:0:0] disk ATA /dev/sda /dev/sg0\n"), ok(""), ok("")],
    );
    assert_eq!(issued, vec!["lsscsi -g"]);
    match step {
        Step::Aborted(error) => assert_eq!(error, DownloadError::Enclosure(EnclosureError::NoEnclosureFound)),
        other => panic!("{:?}", other),
    }
}

#[test]
fn malformed_enclosure_line_ends_the_download() {
    let (issued, step) =
        run(DownloadFileType::Firmware(String::from("fw.bin")), vec![ok("[8:0:0:0] enclosu LSI -\n"), ok("")]);
    assert_eq!(issued, vec!["lsscsi -g"]);
    match step {
        Step::Aborted(error) => assert_eq!(
            error,
            DownloadError::Enclosure(EnclosureError::MalformedEnclosureLine {
                line: String::from("[8:0:0:0] enclosu LSI -"),
            })
        ),
        other => panic!("{:?}", other),
    }
}

#[test]
fn failed_listing_ends_the_download() {
    let (issued, step) =
        run(DownloadFileType::Package(String::from("a.pkg")), vec![failed("lsscsi: not found"), ok("")]);
    assert_eq!(issued, vec!["lsscsi -g"]);
    match step {
        Step::Aborted(error) => assert_eq!(
            error,
            DownloadError::Command(CommandError::CommandFailed {
                command: String::from("lsscsi -g"),
                stderr: String::from("lsscsi: not found"),
            })
        ),
        other => panic!("{:?}", other),
    }
}

#[test]
fn a_failure_at_any_step_ends_the_download_there() {
    let expected = [
        "lsscsi -g",
        "ps3cli /psw0 custom pcieswitch halt off",
        "ps3cli /psw0 custom pcieswitch chipid off",
        "split -b 16M -d -a 1 f f_",
        "sg_write_buffer -m 0x1d -b 4k -l 16M /dev/sg3 -I f_0",
        "sg_write_buffer -m 0x1d -b 4k -l 16M /dev/sg3 -I f_1",
    ];
    for failing in 1..6usize {
        let mut outputs = successes(LISTING, 5);
        outputs[failing] = failed("boom");
        let (issued, step) = run(DownloadFileType::Flash32M(String::from("f")), outputs);
        assert_eq!(issued, expected[..=failing].to_vec());
        match step {
            Step::Aborted(error) => assert_eq!(
                error,
                DownloadError::Command(CommandError::CommandFailed {
                    command: String::from(expected[failing]),
                    stderr: String::from("boom"),
                })
            ),
            other => panic!("{:?}", other),
        }
    }
}

#[test]
fn output_that_is_no_text_ends_the_download() {
    let garbled = Output { success: true, stdout: vec![0xff], stderr: Vec::new() };
    let (issued, step) =
        run(DownloadFileType::Package(String::from("a.pkg")), vec![ok(LISTING), ok(""), garbled, ok("")]);
    assert_eq!(issued.len(), 3);
    match step {
        Step::Aborted(error) => assert_eq!(
            error,
            DownloadError::Command(CommandError::InvalidOutput {
                command: String::from("ps3cli /psw0 custom pcieswitch chipid off"),
            })
        ),
        other => panic!("{:?}", other),
    }
}
