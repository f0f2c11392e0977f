//! Restarting elevated: the PowerShell command that asks UAC to start the
//! program again, and the error shown when that did not happen.
use vstd::prelude::*;
use crate::text::{append_chars, chars_of, string_from_chars, trim, trim_seq};

verus! {

/// The PowerShell command that starts `exe` again through UAC, in the
/// working directory `dir`.
pub open spec fn elevation_command_text(exe: Seq<char>, dir: Seq<char>) -> Seq<char> {
    "Start-Process -FilePath '"@ + exe + "' -WorkingDirectory '"@ + dir + "' -Verb RunAs"@
}

pub fn elevation_command(exe: &str, dir: &str) -> (r: String)
    ensures
        r@ == elevation_command_text(exe@, dir@),
{
    let mut c = chars_of("Start-Process -FilePath '");
    append_chars(&mut c, &chars_of(exe));
    append_chars(&mut c, &chars_of("' -WorkingDirectory '"));
    append_chars(&mut c, &chars_of(dir));
    append_chars(&mut c, &chars_of("' -Verb RunAs"));
    string_from_chars(&c)
}

/// The error when the elevated start failed, from what PowerShell printed
/// on its error stream: nothing there means the user cancelled the prompt.
pub fn elevation_error(stderr: &str) -> (r: String)
    ensures
        trim_seq(stderr@).len() == 0 ==> r@ == "UAC elevation was cancelled."@,
        trim_seq(stderr@).len() > 0 ==> r@ == "UAC elevation failed: "@ + trim_seq(stderr@),
{
    let t = trim(&chars_of(stderr));
    if t.len() == 0 {
        return string_from_chars(&chars_of("UAC elevation was cancelled."));
    }
    let mut m = chars_of("UAC elevation failed: ");
    append_chars(&mut m, &t);
    string_from_chars(&m)
}

} // verus!
