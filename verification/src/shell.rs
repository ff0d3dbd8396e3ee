//! Choosing the login shell that the terminal runs.
use vstd::prelude::*;
use vstd::string::StringSliceAdditionalSpecFns;

verus! {

/// The shell to run: the value of `$SHELL` when it is set, `/bin/zsh` otherwise.
pub fn login_shell(shell_var: Option<String>) -> (shell: String)
    ensures
        shell@ == match shell_var {
            Some(s) => s@,
            None => "/bin/zsh"@,
        },
{
    match shell_var {
        Some(s) => s,
        None => "/bin/zsh".to_owned(),
    }
}

/// Whether the text's UTF-8 bytes hold a NUL byte, which no path passed to `exec` can hold.
pub fn has_nul_byte(text: &str) -> (found: bool)
    ensures
        found == text.spec_bytes().contains(0u8),
{
    let bytes = text.as_bytes();
    let mut i: usize = 0;
    while i < bytes.len()
        invariant
            i <= bytes@.len(),
            bytes@ == text.spec_bytes(),
            forall|k: int| 0 <= k < i ==> bytes@[k] != 0u8,
        decreases bytes@.len() - i,
    {
        if bytes[i] == 0 {
            assert(text.spec_bytes()[i as int] == 0u8);
            return true;
        }
        i = i + 1;
    }
    false
}

} // verus!
