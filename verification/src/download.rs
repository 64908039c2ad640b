//! The download of an image to the enclosure: which commands it takes, in
//! which order, and how it goes on after each of them.

use crate::command::{
    call, finish, invocation, lemma_command_with_program, outcome, succeeded, CommandError,
    CommandFault, Invocation, InvocationView, Output,
};
use crate::enclosure::{enclosure, get_sg, EnclosureError, EnclosureFault, LIST_COMMAND};
use crate::image::{firmware_type, DownloadFileType, Image, ImageKind};
use crate::text::{decimal, lemma_texts_push, texts, to_decimal};
use vstd::prelude::*;

verus! {

/// Switches the halt of the PCIe switch off.
pub const HALT_OFF: &'static str = "ps3cli /psw0 custom pcieswitch halt off";

/// Switches the check of the chip id off.
pub const CHIPID_OFF: &'static str = "ps3cli /psw0 custom pcieswitch chipid off";

/// Why a download came to an early end.
#[derive(Debug, PartialEq, Eq)]
pub enum DownloadError {
    /// A command could not be run, failed, or wrote no text.
    Command(CommandError),
    /// The listing of devices gave no enclosure.
    Enclosure(EnclosureError),
}

/// What a `DownloadError` stands for.
pub enum DownloadFault {
    Command(CommandFault),
    Enclosure(EnclosureFault),
}

impl View for DownloadError {
    type V = DownloadFault;

    open spec fn view(&self) -> DownloadFault {
        match self {
            DownloadError::Command(error) => DownloadFault::Command(error@),
            DownloadError::Enclosure(error) => DownloadFault::Enclosure(error@),
        }
    }
}

/// The command that downloads `image` in one go.
pub open spec fn download_command(image: Image) -> Seq<char> {
    let plain = "ps3cli /psw0 download file="@ + image.file;
    match firmware_type(image.kind) {
        Some(code) => plain + " fwtype="@ + decimal(code as nat),
        None => plain,
    }
}

/// The command that splits `file` into parts of 16 MiB, named like `file`
/// with `_0`, `_1` and so on behind.
pub open spec fn split_command(file: Seq<char>) -> Seq<char> {
    "split -b 16M -d -a 1 "@ + file + " "@ + file + "_"@
}

/// The command that writes part `part` of `file`, 16 MiB in blocks of
/// 4 KiB, to the buffer of `device` in mode 0x1d.
pub open spec fn write_command(device: Seq<char>, file: Seq<char>, part: nat) -> Seq<char> {
    "sg_write_buffer -m 0x1d -b 4k -l 16M "@ + device + " -I "@ + file + "_"@ + decimal(part)
}

/// The commands that download `image` to the enclosure behind `device`, in
/// their order: the two that switch the safety checks off, then the
/// download itself. The full flash image is split in two parts that are
/// written one after the other.
pub open spec fn script(image: Image, device: Seq<char>) -> Seq<Seq<char>> {
    if image.kind == ImageKind::Flash32M {
        seq![
            HALT_OFF@,
            CHIPID_OFF@,
            split_command(image.file),
            write_command(device, image.file, 0),
            write_command(device, image.file, 1),
        ]
    } else {
        seq![HALT_OFF@, CHIPID_OFF@, download_command(image)]
    }
}

/// How far a download has come.
pub enum Progress {
    /// The listing of devices was asked for.
    Resolving,
    /// The enclosure is behind `device`, and command `at` of the script was
    /// issued.
    Flashing { device: Seq<char>, at: nat },
}

/// What a `Download` stands for.
pub struct DownloadView {
    pub image: Image,
    pub progress: Progress,
}

/// What a `Step` stands for.
pub enum StepView {
    Run(DownloadView, InvocationView),
    Finished,
    Aborted(DownloadFault),
}

/// The command that was issued last in `state`, whose end is awaited.
pub open spec fn awaited(state: DownloadView) -> Seq<char> {
    match state.progress {
        Progress::Resolving => LIST_COMMAND@,
        Progress::Flashing { device, at } => script(state.image, device)[at as int],
    }
}

/// The step into `state`: the command awaited there is to be run.
pub open spec fn issue(state: DownloadView) -> StepView {
    match invocation(awaited(state)) {
        Ok(prepared) => StepView::Run(state, prepared),
        Err(fault) => StepView::Aborted(DownloadFault::Command(fault)),
    }
}

/// The first step of the download of `image`: list the devices.
pub open spec fn begin(image: Image) -> StepView {
    issue(DownloadView { image, progress: Progress::Resolving })
}

/// The step that follows in `state` once the awaited command has ended as
/// given. A command that failed ends the download with its error. The
/// listing has to name the enclosure; then the script starts. Behind the
/// script's last command the download is finished.
pub open spec fn advance(state: DownloadView, success: bool, stdout: Seq<u8>, stderr: Seq<u8>) -> StepView {
    match outcome(awaited(state), success, stdout, stderr) {
        Err(fault) => StepView::Aborted(DownloadFault::Command(fault)),
        Ok(text) => match state.progress {
            Progress::Resolving => match enclosure(text) {
                Err(fault) => StepView::Aborted(DownloadFault::Enclosure(fault)),
                Ok(device) => issue(
                    DownloadView { image: state.image, progress: Progress::Flashing { device, at: 0 } },
                ),
            },
            Progress::Flashing { device, at } => if at + 1 < script(state.image, device).len() {
                issue(
                    DownloadView {
                        image: state.image,
                        progress: Progress::Flashing { device, at: at + 1 },
                    },
                )
            } else {
                StepView::Finished
            },
        },
    }
}

/// The commands that are issued, in their order, when the download goes on
/// from `step` and the commands end as `outputs` say, the first of them for
/// the command of `step`. A command without an ending is the last.
pub open spec fn issued(step: StepView, outputs: Seq<Output>) -> Seq<Seq<char>>
    decreases outputs.len(),
{
    match step {
        StepView::Run(state, prepared) => if outputs.len() == 0 {
            seq![prepared.command]
        } else {
            seq![prepared.command] + issued(
                advance(state, outputs[0].success, outputs[0].stdout@, outputs[0].stderr@),
                outputs.drop_first(),
            )
        },
        _ => Seq::empty(),
    }
}

/// The step that the download has come to when it goes on from `step` and
/// the commands end as `outputs` say.
pub open spec fn reached(step: StepView, outputs: Seq<Output>) -> StepView
    decreases outputs.len(),
{
    match step {
        StepView::Run(state, _) => if outputs.len() == 0 {
            step
        } else {
            reached(
                advance(state, outputs[0].success, outputs[0].stdout@, outputs[0].stderr@),
                outputs.drop_first(),
            )
        },
        _ => step,
    }
}

/// The listing command and every command of a script name a program, so
/// each of them is run as it stands.
pub proof fn lemma_commands_can_run(image: Image, device: Seq<char>)
    ensures
        invocation(LIST_COMMAND@) is Ok,
        invocation(LIST_COMMAND@)->Ok_0.command == LIST_COMMAND@,
        forall|at: int|
            0 <= at < script(image, device).len() ==> {
                &&& invocation(#[trigger] script(image, device)[at]) is Ok
                &&& invocation(script(image, device)[at])->Ok_0.command == script(image, device)[at]
            },
{
    reveal_strlit("lsscsi -g");
    reveal_strlit("ps3cli /psw0 custom pcieswitch halt off");
    reveal_strlit("ps3cli /psw0 custom pcieswitch chipid off");
    reveal_strlit("ps3cli /psw0 download file=");
    reveal_strlit("split -b 16M -d -a 1 ");
    reveal_strlit("sg_write_buffer -m 0x1d -b 4k -l 16M ");
    lemma_command_with_program(LIST_COMMAND@);
    lemma_command_with_program(HALT_OFF@);
    lemma_command_with_program(CHIPID_OFF@);
    lemma_command_with_program(download_command(image));
    lemma_command_with_program(split_command(image.file));
    lemma_command_with_program(write_command(device, image.file, 0));
    lemma_command_with_program(write_command(device, image.file, 1));
}

/// The full flash image takes five commands: the two that switch the
/// safety checks off, the split into parts of 16 MiB, and two writes of
/// 16 MiB each to the enclosure, part 0 before part 1.
pub proof fn lemma_flash_script(file: Seq<char>, device: Seq<char>)
    ensures
        script(Image { kind: ImageKind::Flash32M, file }, device) == seq![
            HALT_OFF@,
            CHIPID_OFF@,
            "split -b 16M -d -a 1 "@ + file + " "@ + file + "_"@,
            "sg_write_buffer -m 0x1d -b 4k -l 16M "@ + device + " -I "@ + file + "_0"@,
            "sg_write_buffer -m 0x1d -b 4k -l 16M "@ + device + " -I "@ + file + "_1"@,
        ],
{
    reveal_strlit("_");
    reveal_strlit("_0");
    reveal_strlit("_1");
    let head = "sg_write_buffer -m 0x1d -b 4k -l 16M "@ + device + " -I "@ + file;
    assert("_"@ + decimal(0) =~= "_0"@);
    assert("_"@ + decimal(1) =~= "_1"@);
    assert(head + "_"@ + decimal(0) =~= head + "_0"@);
    assert(head + "_"@ + decimal(1) =~= head + "_1"@);
}

/// Every other image takes three commands: the two that switch the safety
/// checks off, and the download with the category's firmware type code.
pub proof fn lemma_plain_script(image: Image, device: Seq<char>)
    requires
        image.kind != ImageKind::Flash32M,
    ensures
        script(image, device) == seq![
            HALT_OFF@,
            CHIPID_OFF@,
            "ps3cli /psw0 download file="@ + image.file + match image.kind {
                ImageKind::Bootloader => " fwtype=2"@,
                ImageKind::Firmware => " fwtype=4"@,
                ImageKind::Nvdata => " fwtype=6"@,
                ImageKind::Userdefault => " fwtype=15"@,
                _ => ""@,
            },
        ],
{
    reveal_strlit(" fwtype=");
    reveal_strlit(" fwtype=2");
    reveal_strlit(" fwtype=4");
    reveal_strlit(" fwtype=6");
    reveal_strlit(" fwtype=15");
    reveal_strlit("");
    let plain = "ps3cli /psw0 download file="@ + image.file;
    assert(decimal(15) =~= seq!['1', '5']) by {
        reveal_with_fuel(decimal, 2);
    }
    assert(" fwtype="@ + decimal(2) =~= " fwtype=2"@);
    assert(" fwtype="@ + decimal(4) =~= " fwtype=4"@);
    assert(" fwtype="@ + decimal(6) =~= " fwtype=6"@);
    assert(" fwtype="@ + decimal(15) =~= " fwtype=15"@);
    assert(plain + " fwtype="@ + decimal(2) =~= plain + " fwtype=2"@);
    assert(plain + " fwtype="@ + decimal(4) =~= plain + " fwtype=4"@);
    assert(plain + " fwtype="@ + decimal(6) =~= plain + " fwtype=6"@);
    assert(plain + " fwtype="@ + decimal(15) =~= plain + " fwtype=15"@);
    assert(plain =~= plain + ""@);
}

/// From command `at` of the script on, the commands are issued in the
/// script's order, and each but the last that was issued has succeeded.
pub proof fn lemma_script_in_order(image: Image, device: Seq<char>, at: nat, outputs: Seq<Output>)
    requires
        at < script(image, device).len(),
    ensures
        ({
            let state = DownloadView { image, progress: Progress::Flashing { device, at } };
            let run = issued(issue(state), outputs);
            &&& 1 <= run.len() <= script(image, device).len() - at
            &&& run == script(image, device).subrange(at as int, at + run.len() as int)
            &&& run.len() - 1 <= outputs.len()
            &&& forall|i: int| 0 <= i < run.len() - 1 ==> succeeded(run[i], #[trigger] outputs[i])
            &&& reached(issue(state), outputs) is Finished ==> at + run.len() == script(
                image,
                device,
            ).len() && run.len() <= outputs.len() && succeeded(
                run.last(),
                outputs[run.len() - 1],
            )
        }),
    decreases outputs.len(),
{
    let all = script(image, device);
    let state = DownloadView { image, progress: Progress::Flashing { device, at } };
    lemma_commands_can_run(image, device);
    assert(invocation(all[at as int]) is Ok);
    let run = issued(issue(state), outputs);
    if outputs.len() == 0 {
        assert(run =~= all.subrange(at as int, at as int + 1));
    } else {
        let next = advance(state, outputs[0].success, outputs[0].stdout@, outputs[0].stderr@);
        let rest = outputs.drop_first();
        let more = issued(next, rest);
        assert(run == seq![all[at as int]] + more);
        assert(reached(issue(state), outputs) == reached(next, rest));
        if succeeded(all[at as int], outputs[0]) && at + 1 < all.len() {
            lemma_script_in_order(image, device, at + 1, rest);
            assert(run =~= all.subrange(at as int, at + run.len() as int));
            assert forall|i: int| 0 <= i < run.len() - 1 implies succeeded(
                run[i],
                #[trigger] outputs[i],
            ) by {
                if i > 0 {
                    assert(succeeded(more[i - 1], rest[i - 1]));
                }
            }
            if reached(issue(state), outputs) is Finished {
                assert(outputs[run.len() - 1] == rest[more.len() - 1]);
                assert(run.last() == more.last());
            }
        } else {
            assert(more =~= Seq::<Seq<char>>::empty());
            assert(reached(next, rest) == next);
            assert(run =~= all.subrange(at as int, at as int + 1));
        }
    }
}

/// The order of a download, whatever the commands do. The listing command
/// comes first. A further command is issued only when the listing has
/// named the enclosure, and then the commands that follow are the script
/// for that enclosure from its start, in its order. Each command but the
/// last that was issued has succeeded: a failure ends the download.
pub proof fn lemma_commands_in_order(image: Image, outputs: Seq<Output>)
    ensures
        ({
            let run = issued(begin(image), outputs);
            &&& run.len() >= 1
            &&& run[0] == LIST_COMMAND@
            &&& run.len() - 1 <= outputs.len()
            &&& forall|i: int| 0 <= i < run.len() - 1 ==> succeeded(run[i], #[trigger] outputs[i])
            &&& run.len() >= 2 ==> {
                &&& outcome(
                    LIST_COMMAND@,
                    outputs[0].success,
                    outputs[0].stdout@,
                    outputs[0].stderr@,
                ) matches Ok(listing)
                &&& enclosure(listing) matches Ok(device)
                &&& run.len() - 1 <= script(image, device).len()
                &&& run.subrange(1, run.len() as int) == script(image, device).take(run.len() - 1)
            }
        }),
{
    let state = DownloadView { image, progress: Progress::Resolving };
    lemma_commands_can_run(image, Seq::empty());
    let run = issued(begin(image), outputs);
    if outputs.len() == 0 {
    } else {
        let next = advance(state, outputs[0].success, outputs[0].stdout@, outputs[0].stderr@);
        let rest = outputs.drop_first();
        let more = issued(next, rest);
        assert(run == seq![LIST_COMMAND@] + more);
        match outcome(LIST_COMMAND@, outputs[0].success, outputs[0].stdout@, outputs[0].stderr@) {
            Ok(listing) => match enclosure(listing) {
                Ok(device) => {
                    lemma_script_in_order(image, device, 0, rest);
                    assert(run.subrange(1, run.len() as int) =~= more);
                    assert(more =~= script(image, device).take(run.len() - 1));
                    assert forall|i: int| 0 <= i < run.len() - 1 implies succeeded(
                        run[i],
                        #[trigger] outputs[i],
                    ) by {
                        if i > 0 {
                            assert(succeeded(more[i - 1], rest[i - 1]));
                        }
                    }
                },
                Err(_) => {
                    assert(more =~= Seq::<Seq<char>>::empty());
                },
            },
            Err(_) => {
                assert(more =~= Seq::<Seq<char>>::empty());
            },
        }
    }
}

/// A download is finished only when the listing and every command of the
/// script were issued and have succeeded.
pub proof fn lemma_finished_ran_all(image: Image, outputs: Seq<Output>)
    requires
        reached(begin(image), outputs) is Finished,
    ensures
        ({
            let run = issued(begin(image), outputs);
            &&& run.len() <= outputs.len()
            &&& forall|i: int| 0 <= i < run.len() ==> succeeded(run[i], #[trigger] outputs[i])
            &&& outcome(
                LIST_COMMAND@,
                outputs[0].success,
                outputs[0].stdout@,
                outputs[0].stderr@,
            ) matches Ok(listing)
            &&& enclosure(listing) matches Ok(device)
            &&& run == seq![LIST_COMMAND@] + script(image, device)
        }),
{
    let state = DownloadView { image, progress: Progress::Resolving };
    lemma_commands_can_run(image, Seq::empty());
    lemma_commands_in_order(image, outputs);
    let run = issued(begin(image), outputs);
    assert(outputs.len() > 0);
    let next = advance(state, outputs[0].success, outputs[0].stdout@, outputs[0].stderr@);
    let rest = outputs.drop_first();
    let more = issued(next, rest);
    assert(run == seq![LIST_COMMAND@] + more);
    assert(reached(begin(image), outputs) == reached(next, rest));
    match outcome(LIST_COMMAND@, outputs[0].success, outputs[0].stdout@, outputs[0].stderr@) {
        Ok(listing) => match enclosure(listing) {
            Ok(device) => {
                lemma_script_in_order(image, device, 0, rest);
                assert(more =~= script(image, device));
                assert(outputs[run.len() - 1] == rest[more.len() - 1]);
                assert(run.last() == more.last());
            },
            Err(_) => {
                assert(reached(next, rest) == next);
            },
        },
        Err(_) => {
            assert(reached(next, rest) == next);
        },
    }
}

#[derive(Debug)]
enum Stage {
    Resolving,
    Flashing { device: String, at: usize },
}

/// A download under way. It waits for the end of the command that was
/// issued last.
#[derive(Debug)]
pub struct Download {
    file: DownloadFileType,
    stage: Stage,
}

/// What is to be done next for a download.
#[derive(Debug)]
pub enum Step {
    /// Run this command, and hand how it ended to the download.
    Run(Download, Invocation),
    /// Nothing: every command has succeeded.
    Finished,
    /// Nothing: the download has failed, and no further command is issued.
    Aborted(DownloadError),
}

impl View for Download {
    type V = DownloadView;

    closed spec fn view(&self) -> DownloadView {
        DownloadView {
            image: self.file@,
            progress: match self.stage {
                Stage::Resolving => Progress::Resolving,
                Stage::Flashing { device, at } => Progress::Flashing { device: device@, at: at as nat },
            },
        }
    }
}

impl View for Step {
    type V = StepView;

    open spec fn view(&self) -> StepView {
        match self {
            Step::Run(state, prepared) => StepView::Run(state@, prepared@),
            Step::Finished => StepView::Finished,
            Step::Aborted(error) => StepView::Aborted(error@),
        }
    }
}

/// Builds the command that downloads `file` in one go.
fn build_download(file: &DownloadFileType) -> (command: String)
    ensures
        command@ == download_command(file@),
{
    let mut command = String::from_str("ps3cli /psw0 download file=");
    command.append(file.path());
    match file.kind().fw_type() {
        Some(code) => {
            command.append(" fwtype=");
            command.append(to_decimal(code).as_str());
        },
        None => {},
    }
    command
}

/// Builds the command that splits `file`.
fn build_split(file: &str) -> (command: String)
    ensures
        command@ == split_command(file@),
{
    let mut command = String::from_str("split -b 16M -d -a 1 ");
    command.append(file);
    command.append(" ");
    command.append(file);
    command.append("_");
    command
}

/// Builds the command that writes part `part` of `file` to `device`.
fn build_write(device: &str, file: &str, part: u32) -> (command: String)
    ensures
        command@ == write_command(device@, file@, part as nat),
{
    let mut command = String::from_str("sg_write_buffer -m 0x1d -b 4k -l 16M ");
    command.append(device);
    command.append(" -I ");
    command.append(file);
    command.append("_");
    command.append(to_decimal(part).as_str());
    command
}

/// Builds the script for `file` and `device`.
fn build_script(file: &DownloadFileType, device: &str) -> (commands: Vec<String>)
    ensures
        texts(commands@) == script(file@, device@),
{
    let mut commands: Vec<String> = Vec::new();
    let halt = String::from_str(HALT_OFF);
    let chipid = String::from_str(CHIPID_OFF);
    proof {
        lemma_texts_push(commands@, halt);
        lemma_texts_push(commands@.push(halt), chipid);
    }
    commands.push(halt);
    commands.push(chipid);
    match file.kind() {
        ImageKind::Flash32M => {
            let split = build_split(file.path());
            let first = build_write(device, file.path(), 0);
            let second = build_write(device, file.path(), 1);
            proof {
                lemma_texts_push(commands@, split);
                lemma_texts_push(commands@.push(split), first);
                lemma_texts_push(commands@.push(split).push(first), second);
            }
            commands.push(split);
            commands.push(first);
            commands.push(second);
        },
        _ => {
            let download = build_download(file);
            proof {
                lemma_texts_push(commands@, download);
            }
            commands.push(download);
        },
    }
    assert(texts(commands@) =~= script(file@, device@));
    commands
}

impl Download {
    #[verifier::type_invariant]
    spec fn in_script(&self) -> bool {
        self.stage matches Stage::Flashing { device, at } ==> at < script(self.file@, device@).len()
    }

    /// Builds the command whose end the download waits for.
    fn command(&self) -> (command: String)
        ensures
            command@ == awaited(self@),
    {
        proof {
            use_type_invariant(self);
        }
        match &self.stage {
            Stage::Resolving => String::from_str(LIST_COMMAND),
            Stage::Flashing { device, at } => {
                let mut commands = build_script(&self.file, device.as_str());
                commands.swap_remove(*at)
            },
        }
    }

    /// Steps into this state: prepares the command that it waits for.
    fn issue(self) -> (step: Step)
        ensures
            step@ == issue(self@),
    {
        let command = self.command();
        match call(command.as_str()) {
            Ok(prepared) => Step::Run(self, prepared),
            Err(error) => Step::Aborted(DownloadError::Command(error)),
        }
    }

    /// Goes on with the download, given how the command that was run last
    /// has ended.
    pub fn advance(self, output: Output) -> (step: Step)
        ensures
            step@ == advance(self@, output.success, output.stdout@, output.stderr@),
    {
        proof {
            use_type_invariant(&self);
        }
        let command = self.command();
        let text = match finish(command.as_str(), output) {
            Ok(text) => text,
            Err(error) => {
                return Step::Aborted(DownloadError::Command(error));
            },
        };
        let Download { file, stage } = self;
        match stage {
            Stage::Resolving => match get_sg(text.as_str()) {
                Ok(device) => Download { file, stage: Stage::Flashing { device, at: 0 } }.issue(),
                Err(error) => Step::Aborted(DownloadError::Enclosure(error)),
            },
            Stage::Flashing { device, at } => {
                let commands = build_script(&file, device.as_str());
                if at + 1 < commands.len() {
                    Download { file, stage: Stage::Flashing { device, at: at + 1 } }.issue()
                } else {
                    Step::Finished
                }
            },
        }
    }
}

/// Starts the download of `file`. The enclosure is looked up first, so that
/// without one nothing is changed on any device.
pub fn download(file: DownloadFileType) -> (step: Step)
    ensures
        step@ == begin(file@),
{
    Download { file, stage: Stage::Resolving }.issue()
}

} // verus!
