//! `hoard config`: the settings of this machine.

use vstd::prelude::*;

use crate::cli::output::{Cause, Failure};
use crate::text::{same, to_lower, trim};
#[allow(unused_imports)]
use crate::text::{lower, trimmed};

verus! {

#[derive(Debug)]
pub enum ConfigCommand {
    /// Create a default config file at the standard location.
    Init { server: String, force: bool },
    /// Print the resolved config.
    Show,
    /// Set a config field: `server.url`, or `updates.prerelease` to true or false.
    SetKey { key: String, value: String },
    /// Print the path of the config file, whether it exists or not.
    Path,
}

/// Is this a failure with only this line?
pub open spec fn is_plain(f: Failure, line: Seq<char>) -> bool {
    f.cause is Other && f.cause->Other_0@ == line && f.contexts@.len() == 0
}

/// May the config be written at `path`? Not over one that exists, unless forced.
pub fn may_init(path: &str, exists: bool, force: bool) -> (r: Result<(), Failure>)
    ensures
        r is Err == (exists && !force),
        r is Err ==> is_plain(
            r->Err_0,
            "config already exists at "@ + path@ + " (pass --force to overwrite)"@,
        ),
{
    if exists && !force {
        let mut line = "config already exists at ".to_owned();
        line.append(path);
        line.append(" (pass --force to overwrite)");
        assert(line@ =~= "config already exists at "@ + path@ + " (pass --force to overwrite)"@);
        return Err(Failure::of(Cause::Other(line)));
    }
    Ok(())
}

/// The truth that a word says.
pub open spec fn truth(value: Seq<char>) -> Option<bool> {
    let v = lower(trimmed(value));
    if v == "true"@ || v == "on"@ || v == "yes"@ || v == "1"@ {
        Some(true)
    } else if v == "false"@ || v == "off"@ || v == "no"@ || v == "0"@ {
        Some(false)
    } else {
        None
    }
}

/// The truth that a word says, whatever its case and the space around it.
pub fn parse_bool(value: &str) -> (r: Option<bool>)
    ensures
        r == truth(value@),
{
    let v = to_lower(trim(value).as_str());
    let v = v.as_str();
    if same(v, "true") || same(v, "on") || same(v, "yes") || same(v, "1") {
        Some(true)
    } else if same(v, "false") || same(v, "off") || same(v, "no") || same(v, "0") {
        Some(false)
    } else {
        None
    }
}

/// A text as it is shown in quotes, with what does not print written out.
pub uninterp spec fn shown_in_quotes(s: Seq<char>) -> Seq<char>;

/// The `Debug` form of a `str`, as std writes it: it depends on the text alone.
#[verifier::external_body]
fn show_in_quotes(s: &str) -> (r: String)
    ensures
        r@ == shown_in_quotes(s@),
{
    format!("{s:?}")
}

/// What a `set` sets.
#[derive(Debug)]
pub enum Setting {
    /// The server, still to be brought into the form that the client talks to.
    ServerUrl(String),
    Prerelease(bool),
}

/// What `set` was asked to set. The update channel lives in the preferences that the app shares;
/// everything else in the config.
pub fn set(key: String, value: String) -> (r: Result<Setting, Failure>)
    ensures
        if key@ == "updates.prerelease"@ {
            match truth(value@) {
                Some(on) => r == Ok::<Setting, Failure>(Setting::Prerelease(on)),
                None => r is Err && is_plain(
                    r->Err_0,
                    "updates.prerelease takes true or false, not "@ + shown_in_quotes(value@),
                ),
            }
        } else if key@ == "server.url"@ {
            r == Ok::<Setting, Failure>(Setting::ServerUrl(value))
        } else {
            r is Err && is_plain(
                r->Err_0,
                "unknown key: "@ + key@ + " (supported: server.url, updates.prerelease)"@,
            )
        },
{
    if same(key.as_str(), "updates.prerelease") {
        return match parse_bool(value.as_str()) {
            Some(on) => Ok(Setting::Prerelease(on)),
            None => {
                let mut line = "updates.prerelease takes true or false, not ".to_owned();
                line.append(show_in_quotes(value.as_str()).as_str());
                Err(Failure::of(Cause::Other(line)))
            },
        };
    }
    if same(key.as_str(), "server.url") {
        return Ok(Setting::ServerUrl(value));
    }
    let mut line = "unknown key: ".to_owned();
    line.append(key.as_str());
    line.append(" (supported: server.url, updates.prerelease)");
    assert(line@ =~= "unknown key: "@ + key@ + " (supported: server.url, updates.prerelease)"@);
    Err(Failure::of(Cause::Other(line)))
}

/// What is said of the update channel that was set.
pub fn prerelease_line(enabled: bool) -> (r: &'static str)
    ensures
        r@ == (if enabled {
            "pre-releases are test builds; this machine now updates to them too."@
        } else {
            "full releases only. Nothing is downgraded: a pre-release stays until a newer release ships."@
        }),
{
    if enabled {
        "pre-releases are test builds; this machine now updates to them too."
    } else {
        "full releases only. Nothing is downgraded: a pre-release stays until a newer release ships."
    }
}

/// Is a running service told to check for updates now? Only when the channel changed.
pub fn rechecks(was: bool, enabled: bool) -> (r: bool)
    ensures
        r == (was != enabled),
{
    was != enabled
}


// ---- laws

/// A config is never overwritten unasked, and always written where there is none.
pub proof fn a_config_is_not_overwritten_unasked(
    path: &str,
    there: bool,
    force: bool,
    r: Result<(), Failure>,
)
    requires
        call_ensures(may_init, (path, there, force), r),
    ensures
        !there || force ==> r is Ok,
        there && !force ==> r is Err && r->Err_0.cause is Other && r->Err_0.cause->Other_0@
            == "config already exists at "@ + path@ + " (pass --force to overwrite)"@,
{
}

/// The words of truth, in any case and with any space around them.
pub proof fn the_words_of_truth(value: &str, r: Option<bool>)
    requires
        call_ensures(parse_bool, (value,), r),
    ensures
        ({
            let v = lower(trimmed(value@));
            &&& r == Some(true) <==> v == "true"@ || v == "on"@ || v == "yes"@ || v == "1"@
            &&& r == Some(false) <==> v == "false"@ || v == "off"@ || v == "no"@ || v == "0"@
        }),
{
    reveal_strlit("true");
    reveal_strlit("on");
    reveal_strlit("yes");
    reveal_strlit("1");
    reveal_strlit("false");
    reveal_strlit("off");
    reveal_strlit("no");
    reveal_strlit("0");
    assert("true"@.len() == 4 && "on"@.len() == 2 && "yes"@.len() == 3 && "1"@.len() == 1
        && "false"@.len() == 5 && "off"@.len() == 3 && "no"@.len() == 2 && "0"@.len() == 1);
    assert("on"@[0] == 'o' && "no"@[0] == 'n' && "yes"@[0] == 'y' && "off"@[0] == 'o' && "1"@[0]
        == '1' && "0"@[0] == '0');
}

/// The two keys that can be set: the server's address as it was given, and the update channel by a
/// word of truth. Every other key is refused by its name.
pub proof fn a_set_takes_two_keys(
    key: String,
    value: String,
    text: &str,
    on: Option<bool>,
    r: Result<Setting, Failure>,
)
    requires
        text@ == value@,
        call_ensures(parse_bool, (text,), on),
        call_ensures(set, (key, value), r),
    ensures
        key@ == "server.url"@ ==> r is Ok && r->Ok_0 == Setting::ServerUrl(value),
        key@ == "updates.prerelease"@ && on is Some ==> r is Ok && r->Ok_0 == Setting::Prerelease(
            on->0,
        ),
        key@ == "updates.prerelease"@ && on is None ==> r is Err && r->Err_0.cause is Other
            && r->Err_0.cause->Other_0@ == "updates.prerelease takes true or false, not "@
            + shown_in_quotes(value@),
        key@ != "server.url"@ && key@ != "updates.prerelease"@ ==> r is Err
            && r->Err_0.cause is Other && r->Err_0.cause->Other_0@ == "unknown key: "@ + key@
            + " (supported: server.url, updates.prerelease)"@,
{
    reveal_strlit("server.url");
    reveal_strlit("updates.prerelease");
    assert("server.url"@.len() == 10 && "updates.prerelease"@.len() == 18);
}

/// A channel that changed is looked at again, and one that did not is not.
pub proof fn a_changed_channel_is_rechecked(was: bool, enabled: bool, r: bool, line: &'static str)
    requires
        call_ensures(rechecks, (was, enabled), r),
        call_ensures(prerelease_line, (enabled,), line),
    ensures
        was == enabled <==> !r,
        enabled ==> line@
            == "pre-releases are test builds; this machine now updates to them too."@,
        !enabled ==> line@
            == "full releases only. Nothing is downgraded: a pre-release stays until a newer release ships."@,
{
}

} // verus!
