//! The command line.
use crate::text::same_text;
use vstd::prelude::*;

verus! {

/// Where the audio comes from.
#[derive(Clone, Copy, Debug, PartialEq, Eq, Structural)]
pub enum SourceMode {
    /// A deterministic programme of the instrument's own.
    Demo,
    /// The default input of the system.
    Input,
}

/// What the command line asks for.
#[derive(Debug)]
pub struct LaunchOptions {
    pub source: SourceMode,
    pub object_path: Option<String>,
}

/// What a command line comes to.
pub struct Asked {
    pub source: SourceMode,
    pub object_path: Option<Seq<char>>,
}

/// Why the instrument does not start.
#[derive(Debug)]
pub enum LaunchError {
    /// `--object` without a path behind it.
    MissingObjectPath,
    /// System audio cannot be captured.
    SystemAudio,
    /// The usage was asked for.
    Help,
    /// An argument that means nothing.
    Unknown(String),
}

/// Why the instrument does not start, without the text of an argument.
pub enum Refusal {
    MissingObjectPath,
    SystemAudio,
    Help,
    Unknown(Seq<char>),
}

impl LaunchError {
    /// What the error says.
    pub open spec fn refusal(self) -> Refusal {
        match self {
            LaunchError::MissingObjectPath => Refusal::MissingObjectPath,
            LaunchError::SystemAudio => Refusal::SystemAudio,
            LaunchError::Help => Refusal::Help,
            LaunchError::Unknown(argument) => Refusal::Unknown(argument@),
        }
    }

    /// The sentence for the terminal.
    pub fn message(&self) -> (message: String)
        ensures
            message@ == self.refusal().sentence(),
    {
        match self {
            LaunchError::MissingObjectPath => String::from_str(
                "--object needs a .obj, .gltf, or .glb path",
            ),
            LaunchError::SystemAudio => String::from_str(
                "system-audio tap is not wired yet; select a loopback device as default input and run `neta-app --input`",
            ),
            LaunchError::Help => String::from_str(
                "usage: neta-app [--demo | --input] [--object FILE.obj|FILE.gltf|FILE.glb]",
            ),
            LaunchError::Unknown(argument) => {
                let mut message = String::from_str("unknown argument `");
                message.append(argument.as_str());
                message.append("`; use --help");
                message
            },
        }
    }
}

impl Refusal {
    /// The sentence for the terminal.
    pub open spec fn sentence(self) -> Seq<char> {
        match self {
            Refusal::MissingObjectPath => "--object needs a .obj, .gltf, or .glb path"@,
            Refusal::SystemAudio => "system-audio tap is not wired yet; select a loopback device as default input and run `neta-app --input`"@,
            Refusal::Help => "usage: neta-app [--demo | --input] [--object FILE.obj|FILE.gltf|FILE.glb]"@,
            Refusal::Unknown(argument) => "unknown argument `"@ + argument + "`; use --help"@,
        }
    }
}

impl LaunchOptions {
    /// What was asked for.
    pub open spec fn view(&self) -> Asked {
        Asked {
            source: self.source,
            object_path: match self.object_path {
                Some(path) => Some(path@),
                None => None,
            },
        }
    }
}

/// The texts of the arguments.
pub open spec fn words(arguments: Seq<String>) -> Seq<Seq<char>> {
    Seq::new(arguments.len(), |i: int| arguments[i]@)
}

/// What the arguments from a place on make of what was asked for before them.
/// A later argument replaces what an earlier one of its kind said; the first
/// one that cannot be followed ends it.
pub open spec fn understood(arguments: Seq<Seq<char>>, from: int, asked: Asked) -> Result<
    Asked,
    Refusal,
>
    decreases arguments.len() - from,
{
    if from < 0 || from >= arguments.len() {
        Ok(asked)
    } else if arguments[from] == "--demo"@ {
        understood(arguments, from + 1, Asked { source: SourceMode::Demo, ..asked })
    } else if arguments[from] == "--input"@ {
        understood(arguments, from + 1, Asked { source: SourceMode::Input, ..asked })
    } else if arguments[from] == "--object"@ {
        if from + 1 < arguments.len() {
            understood(
                arguments,
                from + 2,
                Asked { object_path: Some(arguments[from + 1]), ..asked },
            )
        } else {
            Err(Refusal::MissingObjectPath)
        }
    } else if arguments[from] == "--system-audio"@ {
        Err(Refusal::SystemAudio)
    } else if arguments[from] == "--help"@ || arguments[from] == "-h"@ {
        Err(Refusal::Help)
    } else {
        Err(Refusal::Unknown(arguments[from]))
    }
}

/// Reads the arguments behind the program's name.
pub fn launch_options(arguments: &[String]) -> (result: Result<LaunchOptions, LaunchError>)
    ensures
        match understood(
            words(arguments@),
            0,
            Asked { source: SourceMode::Demo, object_path: None },
        ) {
            Ok(asked) => result is Ok && result->Ok_0@ == asked,
            Err(refusal) => result is Err && result->Err_0.refusal() == refusal,
        },
{
    let ghost texts = words(arguments@);
    let ghost whole = understood(
        texts,
        0,
        Asked { source: SourceMode::Demo, object_path: None },
    );
    let mut options = LaunchOptions { source: SourceMode::Demo, object_path: None };
    let mut index: usize = 0;
    while index < arguments.len()
        invariant
            index <= arguments@.len(),
            texts == words(arguments@),
            whole == understood(
                texts,
                0,
                Asked { source: SourceMode::Demo, object_path: None },
            ),
            understood(texts, index as int, options@) == whole,
        decreases arguments@.len() - index,
    {
        let argument: &str = arguments[index].as_str();
        assert(texts[index as int] == argument@);
        if same_text(argument, "--demo") {
            options.source = SourceMode::Demo;
            index = index + 1;
        } else if same_text(argument, "--input") {
            options.source = SourceMode::Input;
            index = index + 1;
        } else if same_text(argument, "--object") {
            if index + 1 < arguments.len() {
                let path = String::from_str(arguments[index + 1].as_str());
                assert(texts[index + 1] == path@);
                options.object_path = Some(path);
                index = index + 2;
            } else {
                return Err(LaunchError::MissingObjectPath);
            }
        } else if same_text(argument, "--system-audio") {
            return Err(LaunchError::SystemAudio);
        } else if same_text(argument, "--help") || same_text(argument, "-h") {
            return Err(LaunchError::Help);
        } else {
            return Err(LaunchError::Unknown(String::from_str(argument)));
        }
    }
    Ok(options)
}

/// The title of the window.
pub open spec fn title(source: SourceMode, object: Option<Seq<char>>) -> Seq<char> {
    let plain = match source {
        SourceMode::Demo => "Neta — demo source"@,
        SourceMode::Input => "Neta — default input capture"@,
    };
    match object {
        Some(label) => plain + " · object: "@ + label,
        None => plain,
    }
}

/// The title of the window: where the audio comes from, and which object is
/// shown.
pub fn window_title(source: SourceMode, object: Option<&str>) -> (text: String)
    ensures
        text@ == title(
            source,
            match object {
                Some(label) => Some(label@),
                None => None,
            },
        ),
{
    let mut text = match source {
        SourceMode::Demo => String::from_str("Neta — demo source"),
        SourceMode::Input => String::from_str("Neta — default input capture"),
    };
    if let Some(label) = object {
        text.append(" · object: ");
        text.append(label);
    }
    text
}

/// The title of the window while an input is captured.
pub fn input_title(device: &str) -> (text: String)
    ensures
        text@ == "Neta — input: "@ + device@,
{
    let mut text = String::from_str("Neta — input: ");
    text.append(device);
    text
}

/// What was understood so far, the arguments behind it go on from.
proof fn arguments_go_on(
    arguments: Seq<Seq<char>>,
    further: Seq<Seq<char>>,
    from: int,
    asked: Asked,
)
    requires
        0 <= from <= arguments.len(),
    ensures
        match understood(arguments, from, asked) {
            Ok(so_far) => understood(arguments + further, from, asked) == understood(
                arguments + further,
                arguments.len() as int,
                so_far,
            ),
            Err(Refusal::MissingObjectPath) => true,
            Err(refusal) => understood(arguments + further, from, asked) == Err::<Asked, Refusal>(
                refusal,
            ),
        },
    decreases arguments.len() - from,
{
    let whole = arguments + further;
    if from < arguments.len() {
        assert(whole[from] == arguments[from]);
        if arguments[from] == "--demo"@ {
            arguments_go_on(
                arguments,
                further,
                from + 1,
                Asked { source: SourceMode::Demo, ..asked },
            );
        } else if arguments[from] == "--input"@ {
            arguments_go_on(
                arguments,
                further,
                from + 1,
                Asked { source: SourceMode::Input, ..asked },
            );
        } else if arguments[from] == "--object"@ && from + 1 < arguments.len() {
            assert(whole[from + 1] == arguments[from + 1]);
            arguments_go_on(
                arguments,
                further,
                from + 2,
                Asked { object_path: Some(arguments[from + 1]), ..asked },
            );
        }
    }
}

/// The words of the command line differ.
proof fn switches_differ()
    ensures
        "--demo"@ != "--input"@,
        "--demo"@ != "--object"@,
        "--demo"@ != "--system-audio"@,
        "--demo"@ != "--help"@,
        "--demo"@ != "-h"@,
        "--input"@ != "--object"@,
        "--input"@ != "--system-audio"@,
        "--input"@ != "--help"@,
        "--input"@ != "-h"@,
        "--object"@ != "--system-audio"@,
        "--object"@ != "--help"@,
        "--object"@ != "-h"@,
        "--system-audio"@ != "--help"@,
        "--system-audio"@ != "-h"@,
{
    reveal_strlit("--demo");
    reveal_strlit("--input");
    reveal_strlit("--object");
    reveal_strlit("--system-audio");
    reveal_strlit("--help");
    reveal_strlit("-h");
    assert("--demo"@[2] == 'd' && "--help"@[2] == 'h');
    assert("--input"@.len() == 7 && "--object"@.len() == 8);
    assert("-h"@.len() == 2 && "--demo"@.len() == 6 && "--system-audio"@.len() == 14);
}

/// Behind a command line that is understood, a source replaces the one that was asked
/// for, and an object with its path the object; each leaves the other as it is. Without
/// arguments nothing is changed.
pub proof fn later_arguments_replace_earlier_ones(
    arguments: Seq<Seq<char>>,
    asked: Asked,
    path: Seq<char>,
)
    requires
        understood(arguments, 0, asked) is Ok,
    ensures
        understood(Seq::empty(), 0, asked) == Ok::<Asked, Refusal>(asked),
        ({
            let so_far = understood(arguments, 0, asked)->Ok_0;
            let with = |further: Seq<Seq<char>>| understood(arguments + further, 0, asked);
            &&& with(seq!["--demo"@]) == Ok::<Asked, Refusal>(
                Asked { source: SourceMode::Demo, object_path: so_far.object_path },
            )
            &&& with(seq!["--input"@]) == Ok::<Asked, Refusal>(
                Asked { source: SourceMode::Input, object_path: so_far.object_path },
            )
            &&& with(seq!["--object"@, path]) == Ok::<Asked, Refusal>(
                Asked { source: so_far.source, object_path: Some(path) },
            )
        }),
{
    switches_differ();
    let so_far = understood(arguments, 0, asked)->Ok_0;
    let end = arguments.len() as int;
    arguments_go_on(arguments, seq!["--demo"@], 0, asked);
    arguments_go_on(arguments, seq!["--input"@], 0, asked);
    arguments_go_on(arguments, seq!["--object"@, path], 0, asked);
    assert((arguments + seq!["--demo"@])[end] == "--demo"@);
    assert((arguments + seq!["--input"@])[end] == "--input"@);
    assert((arguments + seq!["--object"@, path])[end] == "--object"@);
    assert((arguments + seq!["--object"@, path])[end + 1] == path);
    reveal_with_fuel(understood, 2);
}

/// The first argument that cannot be followed ends a command line, whatever comes behind
/// it: a request for help, for system audio, or a word that means nothing. An object
/// without a path is refused at the end of the line.
pub proof fn what_cannot_be_followed_is_refused(
    arguments: Seq<Seq<char>>,
    asked: Asked,
    word: Seq<char>,
    further: Seq<Seq<char>>,
)
    requires
        understood(arguments, 0, asked) is Ok,
        word != "--demo"@ && word != "--input"@ && word != "--object"@,
    ensures
        understood(arguments + seq![word] + further, 0, asked) == Err::<Asked, Refusal>(
            if word == "--system-audio"@ {
                Refusal::SystemAudio
            } else if word == "--help"@ || word == "-h"@ {
                Refusal::Help
            } else {
                Refusal::Unknown(word)
            },
        ),
        understood(arguments + seq!["--object"@], 0, asked) == Err::<Asked, Refusal>(
            Refusal::MissingObjectPath,
        ),
{
    switches_differ();
    let end = arguments.len() as int;
    arguments_go_on(arguments, seq![word], 0, asked);
    assert((arguments + seq![word])[end] == word);
    arguments_go_on(arguments + seq![word], further, 0, asked);
    arguments_go_on(arguments, seq!["--object"@], 0, asked);
    assert((arguments + seq!["--object"@])[end] == "--object"@);
}

} // verus!
