//! What a client and the finder process tell each other, and how the
//! client starts the picker and reads what it printed.

use vstd::prelude::*;
use vstd::string::StringExecFns;
use crate::bytes::{split, split_bytes, views};
use crate::item::{lossy_text, read_lossy};

verus! {

/// What a client tells the finder process.
pub enum Message {
    ClientInit {
        launch_directory: String,
        start_directory: String,
        start_query: String,
        recursive: bool,
        file_mode: String,
    },
    Result { query: String, key: String, selection: Vec<String>, code: i32 },
}

/// How the picker is to be started.
pub struct UserArgs {
    pub prompt_prefix: String,
    pub query: String,
    pub with_ansi_colors: bool,
    pub sort: bool,
    pub preview_command: Option<String>,
    pub key_bindings: Vec<String>,
}

/// The texts in `s`.
pub open spec fn texts(s: Seq<String>) -> Seq<Seq<char>> {
    Seq::new(s.len(), |i: int| s[i]@)
}

/// The texts of `parts`, with `sep` between each two.
pub open spec fn joined(parts: Seq<Seq<char>>, sep: Seq<char>) -> Seq<char>
    decreases parts.len(),
{
    if parts.len() == 0 {
        Seq::empty()
    } else if parts.len() == 1 {
        parts[0]
    } else {
        joined(parts.drop_last(), sep) + sep + parts.last()
    }
}

/// Writes the texts of `parts` with `sep` between each two.
pub fn join(parts: &Vec<String>, sep: &str) -> (text: String)
    ensures
        text@ == joined(texts(parts@), sep@),
{
    let mut text: String = String::new();
    let mut i: usize = 0;
    while i < parts.len()
        invariant
            i <= parts@.len(),
            text@ == joined(texts(parts@).take(i as int), sep@),
        decreases parts@.len() - i,
    {
        proof {
            let all = texts(parts@);
            assert(all.take(i + 1).drop_last() =~= all.take(i as int));
            assert(all.take(i + 1).last() == parts@[i as int]@);
        }
        if i > 0 {
            text.append(sep);
        }
        text.append(parts[i].as_str());
        proof {
            if i == 0 {
                assert(text@ =~= parts@[0]@);
                assert(texts(parts@).take(1)[0] == parts@[0]@);
            }
        }
        i = i + 1;
    }
    proof {
        let all = texts(parts@);
        assert(all.take(all.len() as int) =~= all);
    }
    text
}

/// The arguments that set the command by which the picker previews a
/// line.
pub open spec fn preview_args(user_args: UserArgs) -> Seq<Seq<char>> {
    match user_args.preview_command {
        Some(command) => seq!["--preview"@, command@],
        None => Seq::empty(),
    }
}

/// The arguments that the picker is started with: the prompt, what was
/// passed through for it, the switches that `user_args` sets, and the
/// query and the keys that end the picking.
pub open spec fn picker_args(user_args: UserArgs, options: Seq<Seq<char>>) -> Seq<Seq<char>> {
    seq!["--prompt"@, user_args.prompt_prefix@ + ": "@] + options + (if user_args.with_ansi_colors {
        seq!["--ansi"@]
    } else {
        Seq::empty()
    }) + (if !user_args.sort {
        seq!["+s"@]
    } else {
        Seq::empty()
    }) + preview_args(user_args) + seq![
        "--print-query"@,
        "--query"@,
        user_args.query@,
        "--multi"@,
        "--extended"@,
        "--tiebreak=chunk,length,end,index"@,
        "--expect"@,
        joined(texts(user_args.key_bindings@), ","@),
    ]
}

/// Puts `text` behind the others.
fn push_text(list: &mut Vec<String>, text: String)
    ensures
        texts(final(list)@) == texts(old(list)@).push(text@),
{
    list.push(text);
    proof {
        assert(texts(list@) =~= texts(old(list)@).push(text@));
    }
}

/// Makes the arguments that the picker is started with.
pub fn open_fzf(user_args: &UserArgs, options: Vec<String>) -> (fzf_args: Vec<String>)
    ensures
        texts(fzf_args@) == picker_args(*user_args, texts(options@)),
{
    let mut fzf_args: Vec<String> = Vec::new();
    proof {
        assert(texts(fzf_args@) =~= Seq::<Seq<char>>::empty());
    }
    push_text(&mut fzf_args, "--prompt".to_owned());
    let mut prompt: String = user_args.prompt_prefix.clone();
    prompt.append(": ");
    push_text(&mut fzf_args, prompt);
    let ghost head = seq!["--prompt"@, user_args.prompt_prefix@ + ": "@];
    proof {
        assert(texts(fzf_args@) =~= head);
    }
    let ghost wanted = texts(options@);
    let mut i: usize = 0;
    while i < options.len()
        invariant
            i <= options@.len(),
            wanted == texts(options@),
            texts(fzf_args@) == head + wanted.take(i as int),
        decreases options@.len() - i,
    {
        push_text(&mut fzf_args, options[i].clone());
        proof {
            assert(wanted.take(i + 1) =~= wanted.take(i as int).push(wanted[i as int]));
            assert(texts(fzf_args@) =~= head + wanted.take(i + 1));
        }
        i = i + 1;
    }
    proof {
        assert(wanted.take(wanted.len() as int) =~= wanted);
    }
    let ghost ansi = if user_args.with_ansi_colors {
        seq!["--ansi"@]
    } else {
        Seq::<Seq<char>>::empty()
    };
    if user_args.with_ansi_colors {
        push_text(&mut fzf_args, "--ansi".to_owned());
    }
    proof {
        assert(texts(fzf_args@) =~= head + wanted + ansi);
    }
    let ghost unsorted = if !user_args.sort {
        seq!["+s"@]
    } else {
        Seq::<Seq<char>>::empty()
    };
    if !user_args.sort {
        push_text(&mut fzf_args, "+s".to_owned());
    }
    proof {
        assert(texts(fzf_args@) =~= head + wanted + ansi + unsorted);
    }
    let ghost preview = preview_args(*user_args);
    match &user_args.preview_command {
        Some(command) => {
            push_text(&mut fzf_args, "--preview".to_owned());
            push_text(&mut fzf_args, command.clone());
        },
        None => {},
    }
    proof {
        assert(texts(fzf_args@) =~= head + wanted + ansi + unsorted + preview);
    }
    let ghost so_far = texts(fzf_args@);
    push_text(&mut fzf_args, "--print-query".to_owned());
    push_text(&mut fzf_args, "--query".to_owned());
    push_text(&mut fzf_args, user_args.query.clone());
    push_text(&mut fzf_args, "--multi".to_owned());
    push_text(&mut fzf_args, "--extended".to_owned());
    push_text(&mut fzf_args, "--tiebreak=chunk,length,end,index".to_owned());
    push_text(&mut fzf_args, "--expect".to_owned());
    push_text(&mut fzf_args, join(&user_args.key_bindings, ","));
    proof {
        assert(texts(fzf_args@) =~= so_far + seq![
            "--print-query"@,
            "--query"@,
            user_args.query@,
            "--multi"@,
            "--extended"@,
            "--tiebreak=chunk,length,end,index"@,
            "--expect"@,
            joined(texts(user_args.key_bindings@), ","@),
        ]);
    }
    fzf_args
}

/// Why the output of the picker could not be read.
#[derive(Copy, Clone, PartialEq, Eq, Structural, Debug)]
pub enum OutputError {
    /// The picker printed no selection.
    NoSelection,
}

impl OutputError {
    /// The error in words.
    pub fn message(&self) -> (text: &'static str)
        ensures
            text@ == "no selection made"@,
    {
        "no selection made"
    }
}

/// The texts of the lines from `from` up to `to`.
pub open spec fn line_texts(lines: Seq<Seq<u8>>, from: int, to: int) -> Seq<Seq<char>> {
    Seq::new((to - from) as nat, |i: int| lossy_text(lines[from + i]))
}

/// Reads what the picker printed: the query, the key that ended the
/// picking, and the selection, each on a line of its own, with a line feed
/// behind the last. Output of fewer lines holds no selection.
pub fn consume_output(fzf_output: &[u8], code: i32) -> (read: Result<Message, OutputError>)
    ensures
        ({
            let lines = split(fzf_output@, 10u8);
            &&& lines.len() <= 3 ==> read == Err::<Message, OutputError>(OutputError::NoSelection)
            &&& lines.len() > 3 ==> {
                &&& read matches Ok(Message::Result { query, key, selection, code: c })
                &&& query@ == lossy_text(lines[0])
                &&& key@ == lossy_text(lines[1])
                &&& texts(selection@) == line_texts(lines, 2, lines.len() - 1)
                &&& c == code
            }
        }),
{
    let lines: Vec<Vec<u8>> = split_bytes(fzf_output, 10u8);
    if lines.len() <= 3 {
        return Err(OutputError::NoSelection);
    }
    let query: String = read_lossy(lines[0].as_slice());
    let key: String = read_lossy(lines[1].as_slice());
    let mut selection: Vec<String> = Vec::new();
    let last: usize = lines.len() - 1;
    let mut i: usize = 2;
    while i < last
        invariant
            2 <= i <= last,
            last == lines@.len() - 1,
            selection@.len() == i - 2,
            forall|k: int|
                0 <= k < i - 2 ==> (#[trigger] selection@[k])@ == lossy_text(lines@[2 + k]@),
        decreases last - i,
    {
        selection.push(read_lossy(lines[i].as_slice()));
        i = i + 1;
    }
    proof {
        assert(texts(selection@) =~= line_texts(views(lines@), 2, lines@.len() - 1));
    }
    Ok(Message::Result { query, key, selection, code })
}

} // verus!
