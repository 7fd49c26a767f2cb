//! What the interface may open, and what it may log.

use vstd::prelude::*;

#[allow(unused_imports)]
use crate::text::{begins, first};
use crate::text::{first_chars, starts_with};

verus! {

/// Round-trips a name, so that the interface can prove that its calls arrive.
pub fn greet(name: &str) -> (r: String)
    ensures
        r@ == "Hello from Rust, "@ + name@ + "! 🪙"@,
{
    let mut s = "Hello from Rust, ".to_owned();
    s.append(name);
    s.append("! 🪙");
    assert(s@ =~= "Hello from Rust, "@ + name@ + "! 🪙"@);
    s
}

/// Is it a link to the web, or to a mailbox?
pub open spec fn is_web(url: Seq<char>) -> bool {
    begins(url, "https://"@) || begins(url, "http://"@) || begins(url, "mailto:"@)
}

/// May the link go to the opener? Never an arbitrary string: web schemes only.
pub fn may_open(url: &str) -> (r: Result<(), String>)
    ensures
        r is Ok == is_web(url@),
        r is Err ==> r->Err_0@ == "refusing to open non-web URL"@,
{
    if starts_with(url, "https://") || starts_with(url, "http://") || starts_with(url, "mailto:") {
        Ok(())
    } else {
        Err("refusing to open non-web URL".to_owned())
    }
}

/// May the path go to the opener? Only an existing folder, by its absolute path.
pub fn may_show(is_absolute: bool, is_dir: bool) -> (r: Result<(), String>)
    ensures
        r is Ok == (is_absolute && is_dir),
        r is Err ==> r->Err_0@ == "refusing to open something that isn't a folder"@,
{
    if !is_absolute || !is_dir {
        Err("refusing to open something that isn't a folder".to_owned())
    } else {
        Ok(())
    }
}

/// A system with an opener of its own.
#[derive(Debug, Clone, Copy, PartialEq, Eq, Structural)]
pub enum System {
    Linux,
    MacOs,
    Windows,
}

/// What happens to a variable in the opener's environment.
#[derive(Debug)]
pub enum EnvChange {
    Restore { name: &'static str, value: String },
    Drop { name: &'static str },
}

/// The variables of the loader and the toolkits that a bundle points at its own libraries. A
/// browser that inherits them loads those in place of the system's.
pub open spec fn polluted() -> Seq<Seq<char>> {
    seq![
        "LD_LIBRARY_PATH"@,
        "LD_PRELOAD"@,
        "GTK_PATH"@,
        "GDK_PIXBUF_MODULE_FILE"@,
        "GIO_MODULE_DIR"@,
        "GST_PLUGIN_SYSTEM_PATH"@,
        "GSETTINGS_SCHEMA_DIR"@,
    ]
}

/// The names of the polluted variables.
pub fn polluted_names() -> (r: Vec<&'static str>)
    ensures
        r@.len() == polluted().len(),
        forall|i: int| 0 <= i < r@.len() ==> (#[trigger] r@[i])@ == polluted()[i],
{
    let mut r: Vec<&'static str> = Vec::new();
    r.push("LD_LIBRARY_PATH");
    r.push("LD_PRELOAD");
    r.push("GTK_PATH");
    r.push("GDK_PIXBUF_MODULE_FILE");
    r.push("GIO_MODULE_DIR");
    r.push("GST_PLUGIN_SYSTEM_PATH");
    r.push("GSETTINGS_SCHEMA_DIR");
    r
}

/// The command that opens something.
#[derive(Debug)]
pub struct Opener {
    pub program: &'static str,
    pub args: Vec<String>,
    pub env: Vec<EnvChange>,
}

/// Is this what becomes of a polluted variable: its value from before the bundle, where that was
/// kept, and nothing otherwise?
pub open spec fn is_change(c: EnvChange, name: Seq<char>, kept: Option<String>) -> bool {
    match kept {
        Some(v) => c is Restore && c->Restore_name@ == name && c->value == v,
        None => c is Drop && c->Drop_name@ == name,
    }
}

/// Is the environment changed as the system asks for?
pub open spec fn is_env(env: Seq<EnvChange>, system: System, kept: Seq<Option<String>>) -> bool {
    if system == System::Linux {
        env.len() == polluted().len() && forall|i: int|
            0 <= i < env.len() ==> is_change(
                #[trigger] env[i],
                polluted()[i],
                if i < kept.len() {
                    kept[i]
                } else {
                    None
                },
            )
    } else {
        env.len() == 0
    }
}

/// The system's "open this" command for a link or a folder. `kept` holds, for each polluted
/// variable in order, the value from before the bundle where it was kept. On Windows the argument
/// goes to the protocol handler as it is and not through a shell, which would cut a link at its
/// first `&`.
pub fn platform_opener(system: System, arg: &str, kept: Vec<Option<String>>) -> (r: Opener)
    ensures
        match system {
            System::Linux => r.program@ == "xdg-open"@ && r.args@.len() == 1 && r.args@[0]@ == arg@,
            System::MacOs => r.program@ == "open"@ && r.args@.len() == 1 && r.args@[0]@ == arg@,
            System::Windows => r.program@ == "rundll32.exe"@ && r.args@.len() == 2 && r.args@[0]@
                == "url.dll,FileProtocolHandler"@ && r.args@[1]@ == arg@,
        },
        is_env(r.env@, system, kept@),
{
    let mut args: Vec<String> = Vec::new();
    let mut env: Vec<EnvChange> = Vec::new();
    let program: &'static str = match system {
        System::Linux => "xdg-open",
        System::MacOs => "open",
        System::Windows => "rundll32.exe",
    };
    if system == System::Windows {
        args.push("url.dll,FileProtocolHandler".to_owned());
    }
    args.push(arg.to_owned());
    if system == System::Linux {
        let names = polluted_names();
        let mut i: usize = 0;
        while i < names.len()
            invariant
                i <= names@.len(),
                names@.len() == polluted().len(),
                forall|k: int| 0 <= k < names@.len() ==> (#[trigger] names@[k])@ == polluted()[k],
                env@.len() == i,
                forall|k: int|
                    0 <= k < i ==> is_change(
                        #[trigger] env@[k],
                        polluted()[k],
                        if k < kept@.len() {
                            kept@[k]
                        } else {
                            None
                        },
                    ),
            decreases names.len() - i,
        {
            let value: Option<String> = if i < kept.len() {
                match &kept[i] {
                    Some(v) => Some(v.clone()),
                    None => None,
                }
            } else {
                None
            };
            env.push(
                match value {
                    Some(v) => EnvChange::Restore { name: names[i], value: v },
                    None => EnvChange::Drop { name: names[i] },
                },
            );
            i += 1;
        }
    }
    Opener { program, args, env }
}

/// The longest topic of a line that the interface logs.
pub const MAX_TOPIC_CHARS: usize = 32;

/// The longest message of a line that the interface logs.
pub const MAX_MESSAGE_CHARS: usize = 400;

/// One line from the interface into the log: its topic and its message, each capped, so that a
/// runaway caller cannot flood the file.
pub fn ui_log(topic: &str, message: &str) -> (r: (String, String))
    ensures
        r.0@ == first(topic@, MAX_TOPIC_CHARS as nat),
        r.1@ == first(message@, MAX_MESSAGE_CHARS as nat),
{
    (first_chars(topic, MAX_TOPIC_CHARS), first_chars(message, MAX_MESSAGE_CHARS))
}


// ---- laws

/// Only links to the web and to a mailbox are opened, and only folders by their whole path shown.
pub proof fn what_may_be_opened(
    url: &str,
    r: Result<(), String>,
    is_absolute: bool,
    is_dir: bool,
    s: Result<(), String>,
    name: &str,
    hello: String,
)
    requires
        call_ensures(may_open, (url,), r),
        call_ensures(may_show, (is_absolute, is_dir), s),
        call_ensures(greet, (name,), hello),
    ensures
        r is Ok <==> begins(url@, "https://"@) || begins(url@, "http://"@) || begins(
            url@,
            "mailto:"@,
        ),
        r is Err ==> r->Err_0@ == "refusing to open non-web URL"@,
        s is Ok <==> is_absolute && is_dir,
        s is Err ==> s->Err_0@ == "refusing to open something that isn't a folder"@,
        hello@ == "Hello from Rust, "@ + name@ + "! 🪙"@,
{
}

/// What is opened is the last thing that the opener is handed, as it is. Only on Linux is the
/// environment mended: each variable that a bundle spoils gets its value from before, or goes.
pub proof fn an_opener_gets_what_it_opens(
    system: System,
    arg: &str,
    kept: Vec<Option<String>>,
    r: Opener,
    names: Vec<&'static str>,
    i: int,
)
    requires
        call_ensures(platform_opener, (system, arg, kept), r),
        call_ensures(polluted_names, (), names),
    ensures
        r.args@.len() > 0 && r.args@.last()@ == arg@,
        system is Linux ==> r.program@ == "xdg-open"@ && r.args@.len() == 1 && r.env@.len() == 7,
        system is MacOs ==> r.program@ == "open"@ && r.args@.len() == 1 && r.env@.len() == 0,
        system is Windows ==> r.program@ == "rundll32.exe"@ && r.args@.len() == 2 && r.args@[0]@
            == "url.dll,FileProtocolHandler"@ && r.env@.len() == 0,
        names@.len() == 7,
        names@[0]@ == "LD_LIBRARY_PATH"@ && names@[1]@ == "LD_PRELOAD"@ && names@[2]@
            == "GTK_PATH"@ && names@[3]@ == "GDK_PIXBUF_MODULE_FILE"@ && names@[4]@
            == "GIO_MODULE_DIR"@ && names@[5]@ == "GST_PLUGIN_SYSTEM_PATH"@ && names@[6]@
            == "GSETTINGS_SCHEMA_DIR"@,
        system is Linux && 0 <= i < 7 && i < kept@.len() && kept@[i] is Some ==> r.env@[i] is Restore
            && r.env@[i]->Restore_name@ == names@[i]@ && r.env@[i]->value == kept@[i]->0,
        system is Linux && 0 <= i < 7 && (i >= kept@.len() || kept@[i] is None)
            ==> r.env@[i] is Drop && r.env@[i]->Drop_name@ == names@[i]@,
{
    assert(polluted().len() == 7);
    if system is Linux && 0 <= i < 7 {
        assert(is_change(
            r.env@[i],
            polluted()[i],
            if i < kept@.len() {
                kept@[i]
            } else {
                None
            },
        ));
        assert(names@[i]@ == polluted()[i]);
    }
}

/// A line of the log is capped and not otherwise changed.
pub proof fn a_logged_line_is_capped(topic: &str, message: &str, r: (String, String), i: int)
    requires
        call_ensures(ui_log, (topic, message), r),
    ensures
        r.0@.len() <= 32 && r.1@.len() <= 400,
        topic@.len() <= 32 ==> r.0@ == topic@,
        message@.len() <= 400 ==> r.1@ == message@,
        topic@.len() > 32 ==> r.0@.len() == 32,
        message@.len() > 400 ==> r.1@.len() == 400,
        0 <= i < r.0@.len() ==> r.0@[i] == topic@[i],
        0 <= i < r.1@.len() ==> r.1@[i] == message@[i],
{
}

} // verus!
