//! The script block that connects a served page to its live-view socket.

use vstd::prelude::*;
use vstd::string::StringExecFns;

verus! {

/// Relies on `dioxus_interpreter_js::INTERPRETER_JS`, the DOM interpreter
/// script that ships with the crate.
#[verifier::external_body]
fn interpreter_js() -> &'static str {
    dioxus_interpreter_js::INTERPRETER_JS
}

/// The script block: the socket address, the interpreter script, the page's
/// own script, and the call that starts it.
pub open spec fn glue_text(url: Seq<char>, interpreter: Seq<char>, main_js: Seq<char>) -> Seq<char> {
    "\n<script>\n    var WS_ADDR = \""@ + url + "\";\n    "@ + interpreter + "\n    "@ + main_js
        + "\n    main();\n</script>\n    "@
}

/// The script block for the given socket address, interpreter script and
/// page script.
pub fn glue_document(url: &str, interpreter: &str, main_js: &str) -> (r: String)
    ensures
        r@ == glue_text(url@, interpreter@, main_js@),
{
    let mut s = "\n<script>\n    var WS_ADDR = \"".to_owned();
    s.append(url);
    s.append("\";\n    ");
    s.append(interpreter);
    s.append("\n    ");
    s.append(main_js);
    s.append("\n    main();\n</script>\n    ");
    s
}

/// The script block for the given socket address and page script, with the
/// interpreter script of the live-view crate.
pub fn interpreter_glue(url: &str, main_js: &str) -> (r: String)
    ensures
        exists|interpreter: Seq<char>| r@ == glue_text(url@, interpreter, main_js@),
{
    let interpreter = interpreter_js();
    glue_document(url, interpreter, main_js)
}

} // verus!
