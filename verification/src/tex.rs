//! TeX for single characters and for literal text in Typst math.
use vstd::prelude::*;
use crate::text;
use crate::text::{chars_of, push_all, push_str, contains_char_in, char_is_ascii_alpha, is_blank_of};

verus! {

/// `\name ` (a control word followed by a space).
pub open spec fn tex_command(name: Seq<char>) -> Seq<char> {
    "\\"@ + name + " "@
}

pub fn tex_command_of(name: &str) -> (res: Vec<char>)
    ensures
        res@ == tex_command(name@),
{
    let mut out = chars_of("\\");
    push_str(&mut out, name);
    push_str(&mut out, " ");
    out
}

/// The characters that TeX needs escaped with a backslash.
pub open spec fn is_tex_special(c: char) -> bool {
    c == '&' || c == '%' || c == '$' || c == '#' || c == '_' || c == '{' || c == '}'
}

/// TeX for the letters, operators and symbols that Typst math writes as
/// Unicode characters; `None` for those written as they are.
pub open spec fn symbol_tex(c: char) -> Option<Seq<char>> {
    if c == 'Φ' { Some(tex_command("Phi"@)) }
    else if c == 'φ' { Some(tex_command("phi"@)) }
    else if c == 'ε' || c == 'ϵ' { Some(tex_command("epsilon"@)) }
    else if c == 'α' { Some(tex_command("alpha"@)) }
    else if c == 'β' { Some(tex_command("beta"@)) }
    else if c == 'γ' { Some(tex_command("gamma"@)) }
    else if c == 'Γ' { Some(tex_command("Gamma"@)) }
    else if c == 'δ' { Some(tex_command("delta"@)) }
    else if c == 'Δ' { Some(tex_command("Delta"@)) }
    else if c == 'λ' { Some(tex_command("lambda"@)) }
    else if c == 'μ' { Some(tex_command("mu"@)) }
    else if c == 'σ' { Some(tex_command("sigma"@)) }
    else if c == 'Ω' { Some(tex_command("Omega"@)) }
    else if c == 'Θ' { Some(tex_command("Theta"@)) }
    else if c == '𝔹' { Some("\\mathbb{B}"@) }
    else if c == 'ℝ' { Some("\\mathbb{R}"@) }
    else if c == 'ℕ' { Some("\\mathbb{N}"@) }
    else if c == 'ℚ' { Some("\\mathbb{Q}"@) }
    else if c == 'ℂ' { Some("\\mathbb{C}"@) }
    else if c == '𝔼' { Some("\\mathbb{E}"@) }
    else if c == '𝓐' { Some("\\mathcal{A}"@) }
    else if c == '𝓒' { Some("\\mathcal{C}"@) }
    else if c == '𝓗' { Some("\\mathcal{H}"@) }
    else if c == '𝓚' { Some("\\mathcal{K}"@) }
    else if c == '𝓢' { Some("\\mathcal{S}"@) }
    else if c == '𝓤' { Some("\\mathcal{U}"@) }
    else if c == '𝓧' { Some("\\mathcal{X}"@) }
    else if c == '𝓨' { Some("\\mathcal{Y}"@) }
    else if c == '𝐀' { Some("\\mathbf{A}"@) }
    else if c == '𝐈' { Some("\\mathbf{I}"@) }
    else if c == '𝐊' { Some("\\mathbf{K}"@) }
    else if c == '𝐌' { Some("\\mathbf{M}"@) }
    else if c == '𝐔' { Some("\\mathbf{U}"@) }
    else if c == '𝐚' { Some("\\boldsymbol{a}"@) }
    else if c == '𝐛' { Some("\\boldsymbol{b}"@) }
    else if c == '𝐜' { Some("\\boldsymbol{c}"@) }
    else if c == '𝐩' { Some("\\boldsymbol{p}"@) }
    else if c == '𝐪' { Some("\\boldsymbol{q}"@) }
    else if c == '𝐬' { Some("\\boldsymbol{s}"@) }
    else if c == '𝐮' { Some("\\boldsymbol{u}"@) }
    else if c == '𝐱' { Some("\\boldsymbol{x}"@) }
    else if c == '𝐲' { Some("\\boldsymbol{y}"@) }
    else if c == '𝐳' { Some("\\boldsymbol{z}"@) }
    else if c == '≤' { Some(tex_command("le"@)) }
    else if c == '≥' { Some(tex_command("ge"@)) }
    else if c == '≠' { Some(tex_command("ne"@)) }
    else if c == '∈' { Some(tex_command("in"@)) }
    else if c == '∉' { Some(tex_command("notin"@)) }
    else if c == '⊂' { Some(tex_command("subset"@)) }
    else if c == '⊆' { Some(tex_command("subseteq"@)) }
    else if c == '×' { Some(tex_command("times"@)) }
    else if c == '∀' { Some(tex_command("forall"@)) }
    else if c == '∃' { Some(tex_command("exists"@)) }
    else if c == '∑' { Some(tex_command("sum"@)) }
    else if c == '∏' { Some(tex_command("prod"@)) }
    else if c == '∼' { Some(tex_command("sim"@)) }
    else if c == '→' { Some(tex_command("to"@)) }
    else if c == '↦' { Some(tex_command("mapsto"@)) }
    else if c == '⟨' { Some("\\left\\langle "@) }
    else if c == '⟩' { Some("\\right\\rangle "@) }
    else if c == '⌈' { Some("\\lceil "@) }
    else if c == '⌉' { Some("\\rceil "@) }
    else if c == '⌊' { Some("\\lfloor "@) }
    else if c == '⌋' { Some("\\rfloor "@) }
    else if c == '‖' || c == '∥' { Some(tex_command("Vert"@)) }
    else if c == '·' { Some(tex_command("cdot"@)) }
    else if c == '…' || c == '⋯' { Some(tex_command("dots"@)) }
    else if c == '≔' { Some(tex_command("coloneqq"@)) }
    else if c == '−' { Some("-"@) }
    else { None }
}

/// The symbols that Typst writes in two ways and TeX in one.
pub open spec fn same_symbol(a: char, b: char) -> bool {
    a == b || (a == 'ε' && b == 'ϵ') || (a == 'ϵ' && b == 'ε') || (a == '‖' && b == '∥') || (a
        == '∥' && b == '‖') || (a == '…' && b == '⋯') || (a == '⋯' && b == '…')
}

/// Different symbols get different TeX: two characters with the same TeX
/// are the same symbol, written one of the two ways Typst has for it.
#[verifier::rlimit(100)]
pub proof fn law_symbol_tex_distinct(a: char, b: char)
    requires
        symbol_tex(a) is Some,
        symbol_tex(a) == symbol_tex(b),
    ensures
        same_symbol(a, b),
{
    reveal_strlit("\\");
    reveal_strlit(" ");
    reveal_strlit("Delta");
    reveal_strlit("\\Delta ");
    reveal_strlit("Gamma");
    reveal_strlit("\\Gamma ");
    reveal_strlit("Omega");
    reveal_strlit("\\Omega ");
    reveal_strlit("Phi");
    reveal_strlit("\\Phi ");
    reveal_strlit("Theta");
    reveal_strlit("\\Theta ");
    reveal_strlit("Vert");
    reveal_strlit("\\Vert ");
    reveal_strlit("alpha");
    reveal_strlit("\\alpha ");
    reveal_strlit("beta");
    reveal_strlit("\\beta ");
    reveal_strlit("cdot");
    reveal_strlit("\\cdot ");
    reveal_strlit("coloneqq");
    reveal_strlit("\\coloneqq ");
    reveal_strlit("delta");
    reveal_strlit("\\delta ");
    reveal_strlit("dots");
    reveal_strlit("\\dots ");
    reveal_strlit("epsilon");
    reveal_strlit("\\epsilon ");
    reveal_strlit("exists");
    reveal_strlit("\\exists ");
    reveal_strlit("forall");
    reveal_strlit("\\forall ");
    reveal_strlit("gamma");
    reveal_strlit("\\gamma ");
    reveal_strlit("ge");
    reveal_strlit("\\ge ");
    reveal_strlit("in");
    reveal_strlit("\\in ");
    reveal_strlit("lambda");
    reveal_strlit("\\lambda ");
    reveal_strlit("le");
    reveal_strlit("\\le ");
    reveal_strlit("mapsto");
    reveal_strlit("\\mapsto ");
    reveal_strlit("mu");
    reveal_strlit("\\mu ");
    reveal_strlit("ne");
    reveal_strlit("\\ne ");
    reveal_strlit("notin");
    reveal_strlit("\\notin ");
    reveal_strlit("phi");
    reveal_strlit("\\phi ");
    reveal_strlit("prod");
    reveal_strlit("\\prod ");
    reveal_strlit("sigma");
    reveal_strlit("\\sigma ");
    reveal_strlit("sim");
    reveal_strlit("\\sim ");
    reveal_strlit("subset");
    reveal_strlit("\\subset ");
    reveal_strlit("subseteq");
    reveal_strlit("\\subseteq ");
    reveal_strlit("sum");
    reveal_strlit("\\sum ");
    reveal_strlit("times");
    reveal_strlit("\\times ");
    reveal_strlit("to");
    reveal_strlit("\\to ");
    reveal_strlit("-");
    reveal_strlit("\\boldsymbol{a}");
    reveal_strlit("\\boldsymbol{b}");
    reveal_strlit("\\boldsymbol{c}");
    reveal_strlit("\\boldsymbol{p}");
    reveal_strlit("\\boldsymbol{q}");
    reveal_strlit("\\boldsymbol{s}");
    reveal_strlit("\\boldsymbol{u}");
    reveal_strlit("\\boldsymbol{x}");
    reveal_strlit("\\boldsymbol{y}");
    reveal_strlit("\\boldsymbol{z}");
    reveal_strlit("\\lceil ");
    reveal_strlit("\\left\\langle ");
    reveal_strlit("\\lfloor ");
    reveal_strlit("\\mathbb{B}");
    reveal_strlit("\\mathbb{C}");
    reveal_strlit("\\mathbb{E}");
    reveal_strlit("\\mathbb{N}");
    reveal_strlit("\\mathbb{Q}");
    reveal_strlit("\\mathbb{R}");
    reveal_strlit("\\mathbf{A}");
    reveal_strlit("\\mathbf{I}");
    reveal_strlit("\\mathbf{K}");
    reveal_strlit("\\mathbf{M}");
    reveal_strlit("\\mathbf{U}");
    reveal_strlit("\\mathcal{A}");
    reveal_strlit("\\mathcal{C}");
    reveal_strlit("\\mathcal{H}");
    reveal_strlit("\\mathcal{K}");
    reveal_strlit("\\mathcal{S}");
    reveal_strlit("\\mathcal{U}");
    reveal_strlit("\\mathcal{X}");
    reveal_strlit("\\mathcal{Y}");
    reveal_strlit("\\rceil ");
    reveal_strlit("\\rfloor ");
    reveal_strlit("\\right\\rangle ");
    assert(tex_command("Delta"@) =~= "\\Delta "@);
    assert(tex_command("Gamma"@) =~= "\\Gamma "@);
    assert(tex_command("Omega"@) =~= "\\Omega "@);
    assert(tex_command("Phi"@) =~= "\\Phi "@);
    assert(tex_command("Theta"@) =~= "\\Theta "@);
    assert(tex_command("Vert"@) =~= "\\Vert "@);
    assert(tex_command("alpha"@) =~= "\\alpha "@);
    assert(tex_command("beta"@) =~= "\\beta "@);
    assert(tex_command("cdot"@) =~= "\\cdot "@);
    assert(tex_command("coloneqq"@) =~= "\\coloneqq "@);
    assert(tex_command("delta"@) =~= "\\delta "@);
    assert(tex_command("dots"@) =~= "\\dots "@);
    assert(tex_command("epsilon"@) =~= "\\epsilon "@);
    assert(tex_command("exists"@) =~= "\\exists "@);
    assert(tex_command("forall"@) =~= "\\forall "@);
    assert(tex_command("gamma"@) =~= "\\gamma "@);
    assert(tex_command("ge"@) =~= "\\ge "@);
    assert(tex_command("in"@) =~= "\\in "@);
    assert(tex_command("lambda"@) =~= "\\lambda "@);
    assert(tex_command("le"@) =~= "\\le "@);
    assert(tex_command("mapsto"@) =~= "\\mapsto "@);
    assert(tex_command("mu"@) =~= "\\mu "@);
    assert(tex_command("ne"@) =~= "\\ne "@);
    assert(tex_command("notin"@) =~= "\\notin "@);
    assert(tex_command("phi"@) =~= "\\phi "@);
    assert(tex_command("prod"@) =~= "\\prod "@);
    assert(tex_command("sigma"@) =~= "\\sigma "@);
    assert(tex_command("sim"@) =~= "\\sim "@);
    assert(tex_command("subset"@) =~= "\\subset "@);
    assert(tex_command("subseteq"@) =~= "\\subseteq "@);
    assert(tex_command("sum"@) =~= "\\sum "@);
    assert(tex_command("times"@) =~= "\\times "@);
    assert(tex_command("to"@) =~= "\\to "@);
    assert("\\Phi "@.len() == 5 && "\\Phi "@[1] == 'P' && "\\Phi "@[2] == 'h' && "\\Phi "@[3] == 'i');
    assert("\\phi "@.len() == 5 && "\\phi "@[1] == 'p' && "\\phi "@[2] == 'h' && "\\phi "@[3] == 'i');
    assert("\\epsilon "@.len() == 9 && "\\epsilon "@[1] == 'e' && "\\epsilon "@[2] == 'p' && "\\epsilon "@[7] == 'n');
    assert("\\alpha "@.len() == 7 && "\\alpha "@[1] == 'a' && "\\alpha "@[2] == 'l' && "\\alpha "@[5] == 'a');
    assert("\\beta "@.len() == 6 && "\\beta "@[1] == 'b' && "\\beta "@[2] == 'e' && "\\beta "@[4] == 'a');
    assert("\\gamma "@.len() == 7 && "\\gamma "@[1] == 'g' && "\\gamma "@[2] == 'a' && "\\gamma "@[5] == 'a');
    assert("\\Gamma "@.len() == 7 && "\\Gamma "@[1] == 'G' && "\\Gamma "@[2] == 'a' && "\\Gamma "@[5] == 'a');
    assert("\\delta "@.len() == 7 && "\\delta "@[1] == 'd' && "\\delta "@[2] == 'e' && "\\delta "@[5] == 'a');
    assert("\\Delta "@.len() == 7 && "\\Delta "@[1] == 'D' && "\\Delta "@[2] == 'e' && "\\Delta "@[5] == 'a');
    assert("\\lambda "@.len() == 8 && "\\lambda "@[1] == 'l' && "\\lambda "@[2] == 'a' && "\\lambda "@[6] == 'a');
    assert("\\mu "@.len() == 4 && "\\mu "@[1] == 'm' && "\\mu "@[2] == 'u' && "\\mu "@[2] == 'u');
    assert("\\sigma "@.len() == 7 && "\\sigma "@[1] == 's' && "\\sigma "@[2] == 'i' && "\\sigma "@[5] == 'a');
    assert("\\Omega "@.len() == 7 && "\\Omega "@[1] == 'O' && "\\Omega "@[2] == 'm' && "\\Omega "@[5] == 'a');
    assert("\\Theta "@.len() == 7 && "\\Theta "@[1] == 'T' && "\\Theta "@[2] == 'h' && "\\Theta "@[5] == 'a');
    assert("\\mathbb{B}"@.len() == 10 && "\\mathbb{B}"@[1] == 'm' && "\\mathbb{B}"@[2] == 'a' && "\\mathbb{B}"@[8] == 'B');
    assert("\\mathbb{R}"@.len() == 10 && "\\mathbb{R}"@[1] == 'm' && "\\mathbb{R}"@[2] == 'a' && "\\mathbb{R}"@[8] == 'R');
    assert("\\mathbb{N}"@.len() == 10 && "\\mathbb{N}"@[1] == 'm' && "\\mathbb{N}"@[2] == 'a' && "\\mathbb{N}"@[8] == 'N');
    assert("\\mathbb{Q}"@.len() == 10 && "\\mathbb{Q}"@[1] == 'm' && "\\mathbb{Q}"@[2] == 'a' && "\\mathbb{Q}"@[8] == 'Q');
    assert("\\mathbb{C}"@.len() == 10 && "\\mathbb{C}"@[1] == 'm' && "\\mathbb{C}"@[2] == 'a' && "\\mathbb{C}"@[8] == 'C');
    assert("\\mathbb{E}"@.len() == 10 && "\\mathbb{E}"@[1] == 'm' && "\\mathbb{E}"@[2] == 'a' && "\\mathbb{E}"@[8] == 'E');
    assert("\\mathcal{A}"@.len() == 11 && "\\mathcal{A}"@[1] == 'm' && "\\mathcal{A}"@[2] == 'a' && "\\mathcal{A}"@[9] == 'A');
    assert("\\mathcal{C}"@.len() == 11 && "\\mathcal{C}"@[1] == 'm' && "\\mathcal{C}"@[2] == 'a' && "\\mathcal{C}"@[9] == 'C');
    assert("\\mathcal{H}"@.len() == 11 && "\\mathcal{H}"@[1] == 'm' && "\\mathcal{H}"@[2] == 'a' && "\\mathcal{H}"@[9] == 'H');
    assert("\\mathcal{K}"@.len() == 11 && "\\mathcal{K}"@[1] == 'm' && "\\mathcal{K}"@[2] == 'a' && "\\mathcal{K}"@[9] == 'K');
    assert("\\mathcal{S}"@.len() == 11 && "\\mathcal{S}"@[1] == 'm' && "\\mathcal{S}"@[2] == 'a' && "\\mathcal{S}"@[9] == 'S');
    assert("\\mathcal{U}"@.len() == 11 && "\\mathcal{U}"@[1] == 'm' && "\\mathcal{U}"@[2] == 'a' && "\\mathcal{U}"@[9] == 'U');
    assert("\\mathcal{X}"@.len() == 11 && "\\mathcal{X}"@[1] == 'm' && "\\mathcal{X}"@[2] == 'a' && "\\mathcal{X}"@[9] == 'X');
    assert("\\mathcal{Y}"@.len() == 11 && "\\mathcal{Y}"@[1] == 'm' && "\\mathcal{Y}"@[2] == 'a' && "\\mathcal{Y}"@[9] == 'Y');
    assert("\\mathbf{A}"@.len() == 10 && "\\mathbf{A}"@[1] == 'm' && "\\mathbf{A}"@[2] == 'a' && "\\mathbf{A}"@[8] == 'A');
    assert("\\mathbf{I}"@.len() == 10 && "\\mathbf{I}"@[1] == 'm' && "\\mathbf{I}"@[2] == 'a' && "\\mathbf{I}"@[8] == 'I');
    assert("\\mathbf{K}"@.len() == 10 && "\\mathbf{K}"@[1] == 'm' && "\\mathbf{K}"@[2] == 'a' && "\\mathbf{K}"@[8] == 'K');
    assert("\\mathbf{M}"@.len() == 10 && "\\mathbf{M}"@[1] == 'm' && "\\mathbf{M}"@[2] == 'a' && "\\mathbf{M}"@[8] == 'M');
    assert("\\mathbf{U}"@.len() == 10 && "\\mathbf{U}"@[1] == 'm' && "\\mathbf{U}"@[2] == 'a' && "\\mathbf{U}"@[8] == 'U');
    assert("\\boldsymbol{a}"@.len() == 14 && "\\boldsymbol{a}"@[1] == 'b' && "\\boldsymbol{a}"@[2] == 'o' && "\\boldsymbol{a}"@[12] == 'a');
    assert("\\boldsymbol{b}"@.len() == 14 && "\\boldsymbol{b}"@[1] == 'b' && "\\boldsymbol{b}"@[2] == 'o' && "\\boldsymbol{b}"@[12] == 'b');
    assert("\\boldsymbol{c}"@.len() == 14 && "\\boldsymbol{c}"@[1] == 'b' && "\\boldsymbol{c}"@[2] == 'o' && "\\boldsymbol{c}"@[12] == 'c');
    assert("\\boldsymbol{p}"@.len() == 14 && "\\boldsymbol{p}"@[1] == 'b' && "\\boldsymbol{p}"@[2] == 'o' && "\\boldsymbol{p}"@[12] == 'p');
    assert("\\boldsymbol{q}"@.len() == 14 && "\\boldsymbol{q}"@[1] == 'b' && "\\boldsymbol{q}"@[2] == 'o' && "\\boldsymbol{q}"@[12] == 'q');
    assert("\\boldsymbol{s}"@.len() == 14 && "\\boldsymbol{s}"@[1] == 'b' && "\\boldsymbol{s}"@[2] == 'o' && "\\boldsymbol{s}"@[12] == 's');
    assert("\\boldsymbol{u}"@.len() == 14 && "\\boldsymbol{u}"@[1] == 'b' && "\\boldsymbol{u}"@[2] == 'o' && "\\boldsymbol{u}"@[12] == 'u');
    assert("\\boldsymbol{x}"@.len() == 14 && "\\boldsymbol{x}"@[1] == 'b' && "\\boldsymbol{x}"@[2] == 'o' && "\\boldsymbol{x}"@[12] == 'x');
    assert("\\boldsymbol{y}"@.len() == 14 && "\\boldsymbol{y}"@[1] == 'b' && "\\boldsymbol{y}"@[2] == 'o' && "\\boldsymbol{y}"@[12] == 'y');
    assert("\\boldsymbol{z}"@.len() == 14 && "\\boldsymbol{z}"@[1] == 'b' && "\\boldsymbol{z}"@[2] == 'o' && "\\boldsymbol{z}"@[12] == 'z');
    assert("\\le "@.len() == 4 && "\\le "@[1] == 'l' && "\\le "@[2] == 'e' && "\\le "@[2] == 'e');
    assert("\\ge "@.len() == 4 && "\\ge "@[1] == 'g' && "\\ge "@[2] == 'e' && "\\ge "@[2] == 'e');
    assert("\\ne "@.len() == 4 && "\\ne "@[1] == 'n' && "\\ne "@[2] == 'e' && "\\ne "@[2] == 'e');
    assert("\\in "@.len() == 4 && "\\in "@[1] == 'i' && "\\in "@[2] == 'n' && "\\in "@[2] == 'n');
    assert("\\notin "@.len() == 7 && "\\notin "@[1] == 'n' && "\\notin "@[2] == 'o' && "\\notin "@[5] == 'n');
    assert("\\subset "@.len() == 8 && "\\subset "@[1] == 's' && "\\subset "@[2] == 'u' && "\\subset "@[6] == 't');
    assert("\\subseteq "@.len() == 10 && "\\subseteq "@[1] == 's' && "\\subseteq "@[2] == 'u' && "\\subseteq "@[8] == 'q');
    assert("\\times "@.len() == 7 && "\\times "@[1] == 't' && "\\times "@[2] == 'i' && "\\times "@[5] == 's');
    assert("\\forall "@.len() == 8 && "\\forall "@[1] == 'f' && "\\forall "@[2] == 'o' && "\\forall "@[6] == 'l');
    assert("\\exists "@.len() == 8 && "\\exists "@[1] == 'e' && "\\exists "@[2] == 'x' && "\\exists "@[6] == 's');
    assert("\\sum "@.len() == 5 && "\\sum "@[1] == 's' && "\\sum "@[2] == 'u' && "\\sum "@[3] == 'm');
    assert("\\prod "@.len() == 6 && "\\prod "@[1] == 'p' && "\\prod "@[2] == 'r' && "\\prod "@[4] == 'd');
    assert("\\sim "@.len() == 5 && "\\sim "@[1] == 's' && "\\sim "@[2] == 'i' && "\\sim "@[3] == 'm');
    assert("\\to "@.len() == 4 && "\\to "@[1] == 't' && "\\to "@[2] == 'o' && "\\to "@[2] == 'o');
    assert("\\mapsto "@.len() == 8 && "\\mapsto "@[1] == 'm' && "\\mapsto "@[2] == 'a' && "\\mapsto "@[6] == 'o');
    assert("\\left\\langle "@.len() == 13 && "\\left\\langle "@[1] == 'l' && "\\left\\langle "@[2] == 'e' && "\\left\\langle "@[11] == 'e');
    assert("\\right\\rangle "@.len() == 14 && "\\right\\rangle "@[1] == 'r' && "\\right\\rangle "@[2] == 'i' && "\\right\\rangle "@[12] == 'e');
    assert("\\lceil "@.len() == 7 && "\\lceil "@[1] == 'l' && "\\lceil "@[2] == 'c' && "\\lceil "@[5] == 'l');
    assert("\\rceil "@.len() == 7 && "\\rceil "@[1] == 'r' && "\\rceil "@[2] == 'c' && "\\rceil "@[5] == 'l');
    assert("\\lfloor "@.len() == 8 && "\\lfloor "@[1] == 'l' && "\\lfloor "@[2] == 'f' && "\\lfloor "@[6] == 'r');
    assert("\\rfloor "@.len() == 8 && "\\rfloor "@[1] == 'r' && "\\rfloor "@[2] == 'f' && "\\rfloor "@[6] == 'r');
    assert("\\Vert "@.len() == 6 && "\\Vert "@[1] == 'V' && "\\Vert "@[2] == 'e' && "\\Vert "@[4] == 't');
    assert("\\cdot "@.len() == 6 && "\\cdot "@[1] == 'c' && "\\cdot "@[2] == 'd' && "\\cdot "@[4] == 't');
    assert("\\dots "@.len() == 6 && "\\dots "@[1] == 'd' && "\\dots "@[2] == 'o' && "\\dots "@[4] == 's');
    assert("\\coloneqq "@.len() == 10 && "\\coloneqq "@[1] == 'c' && "\\coloneqq "@[2] == 'o' && "\\coloneqq "@[8] == 'q');
    assert("-"@.len() == 1);
    // The length and three characters tell every output apart.
    let t = symbol_tex(a)->0;
    assert(symbol_tex(b)->0 == t);
    assert(t.len() == t.len() && t[1] == t[1] && t[2] == t[2] && t[t.len() - 2] == t[t.len() - 2]);
}

/// TeX for one character of math: a known symbol's command, a backslash in
/// front of TeX's special characters, and any other character as it is.
pub open spec fn char_tex(c: char) -> Seq<char> {
    match symbol_tex(c) {
        Some(t) => t,
        None => if is_tex_special(c) {
            seq!['\\', c]
        } else {
            seq![c]
        },
    }
}

/// The relation symbols become TeX's commands for the same relations.
pub proof fn law_relation_commands()
    ensures
        char_tex('≤') == "\\le "@,
        char_tex('≥') == "\\ge "@,
        char_tex('≠') == "\\ne "@,
        char_tex('∈') == "\\in "@,
        char_tex('∉') == "\\notin "@,
        char_tex('⊂') == "\\subset "@,
        char_tex('⊆') == "\\subseteq "@,
        char_tex('∼') == "\\sim "@,
        char_tex('→') == "\\to "@,
        char_tex('↦') == "\\mapsto "@,
        char_tex('≔') == "\\coloneqq "@,
{
    reveal_strlit("\\");
    reveal_strlit(" ");
    reveal_strlit("le");
    reveal_strlit("\\le ");
    assert(tex_command("le"@) =~= "\\le "@);
    reveal_strlit("ge");
    reveal_strlit("\\ge ");
    assert(tex_command("ge"@) =~= "\\ge "@);
    reveal_strlit("ne");
    reveal_strlit("\\ne ");
    assert(tex_command("ne"@) =~= "\\ne "@);
    reveal_strlit("in");
    reveal_strlit("\\in ");
    assert(tex_command("in"@) =~= "\\in "@);
    reveal_strlit("notin");
    reveal_strlit("\\notin ");
    assert(tex_command("notin"@) =~= "\\notin "@);
    reveal_strlit("subset");
    reveal_strlit("\\subset ");
    assert(tex_command("subset"@) =~= "\\subset "@);
    reveal_strlit("subseteq");
    reveal_strlit("\\subseteq ");
    assert(tex_command("subseteq"@) =~= "\\subseteq "@);
    reveal_strlit("sim");
    reveal_strlit("\\sim ");
    assert(tex_command("sim"@) =~= "\\sim "@);
    reveal_strlit("to");
    reveal_strlit("\\to ");
    assert(tex_command("to"@) =~= "\\to "@);
    reveal_strlit("mapsto");
    reveal_strlit("\\mapsto ");
    assert(tex_command("mapsto"@) =~= "\\mapsto "@);
    reveal_strlit("coloneqq");
    reveal_strlit("\\coloneqq ");
    assert(tex_command("coloneqq"@) =~= "\\coloneqq "@);
}

/// The Greek letters become TeX's commands of the same names.
pub proof fn law_greek_letter_commands()
    ensures
        char_tex('Φ') == "\\Phi "@,
        char_tex('φ') == "\\phi "@,
        char_tex('ε') == "\\epsilon "@,
        char_tex('ϵ') == "\\epsilon "@,
        char_tex('α') == "\\alpha "@,
        char_tex('β') == "\\beta "@,
        char_tex('γ') == "\\gamma "@,
        char_tex('Γ') == "\\Gamma "@,
        char_tex('δ') == "\\delta "@,
        char_tex('Δ') == "\\Delta "@,
        char_tex('λ') == "\\lambda "@,
        char_tex('μ') == "\\mu "@,
        char_tex('σ') == "\\sigma "@,
        char_tex('Ω') == "\\Omega "@,
        char_tex('Θ') == "\\Theta "@,
{
    reveal_strlit("\\");
    reveal_strlit(" ");
    reveal_strlit("Delta");
    reveal_strlit("\\Delta ");
    assert(tex_command("Delta"@) =~= "\\Delta "@);
    reveal_strlit("Gamma");
    reveal_strlit("\\Gamma ");
    assert(tex_command("Gamma"@) =~= "\\Gamma "@);
    reveal_strlit("Omega");
    reveal_strlit("\\Omega ");
    assert(tex_command("Omega"@) =~= "\\Omega "@);
    reveal_strlit("Phi");
    reveal_strlit("\\Phi ");
    assert(tex_command("Phi"@) =~= "\\Phi "@);
    reveal_strlit("Theta");
    reveal_strlit("\\Theta ");
    assert(tex_command("Theta"@) =~= "\\Theta "@);
    reveal_strlit("alpha");
    reveal_strlit("\\alpha ");
    assert(tex_command("alpha"@) =~= "\\alpha "@);
    reveal_strlit("beta");
    reveal_strlit("\\beta ");
    assert(tex_command("beta"@) =~= "\\beta "@);
    reveal_strlit("delta");
    reveal_strlit("\\delta ");
    assert(tex_command("delta"@) =~= "\\delta "@);
    reveal_strlit("epsilon");
    reveal_strlit("\\epsilon ");
    assert(tex_command("epsilon"@) =~= "\\epsilon "@);
    reveal_strlit("gamma");
    reveal_strlit("\\gamma ");
    assert(tex_command("gamma"@) =~= "\\gamma "@);
    reveal_strlit("lambda");
    reveal_strlit("\\lambda ");
    assert(tex_command("lambda"@) =~= "\\lambda "@);
    reveal_strlit("mu");
    reveal_strlit("\\mu ");
    assert(tex_command("mu"@) =~= "\\mu "@);
    reveal_strlit("phi");
    reveal_strlit("\\phi ");
    assert(tex_command("phi"@) =~= "\\phi "@);
    reveal_strlit("sigma");
    reveal_strlit("\\sigma ");
    assert(tex_command("sigma"@) =~= "\\sigma "@);
}

/// The operators, quantifiers, dots and double bar become TeX's commands for them.
pub proof fn law_operator_commands()
    ensures
        char_tex('×') == "\\times "@,
        char_tex('∀') == "\\forall "@,
        char_tex('∃') == "\\exists "@,
        char_tex('∑') == "\\sum "@,
        char_tex('∏') == "\\prod "@,
        char_tex('·') == "\\cdot "@,
        char_tex('…') == "\\dots "@,
        char_tex('⋯') == "\\dots "@,
        char_tex('‖') == "\\Vert "@,
        char_tex('∥') == "\\Vert "@,
{
    reveal_strlit("\\");
    reveal_strlit(" ");
    reveal_strlit("Vert");
    reveal_strlit("\\Vert ");
    assert(tex_command("Vert"@) =~= "\\Vert "@);
    reveal_strlit("cdot");
    reveal_strlit("\\cdot ");
    assert(tex_command("cdot"@) =~= "\\cdot "@);
    reveal_strlit("dots");
    reveal_strlit("\\dots ");
    assert(tex_command("dots"@) =~= "\\dots "@);
    reveal_strlit("exists");
    reveal_strlit("\\exists ");
    assert(tex_command("exists"@) =~= "\\exists "@);
    reveal_strlit("forall");
    reveal_strlit("\\forall ");
    assert(tex_command("forall"@) =~= "\\forall "@);
    reveal_strlit("prod");
    reveal_strlit("\\prod ");
    assert(tex_command("prod"@) =~= "\\prod "@);
    reveal_strlit("sum");
    reveal_strlit("\\sum ");
    assert(tex_command("sum"@) =~= "\\sum "@);
    reveal_strlit("times");
    reveal_strlit("\\times ");
    assert(tex_command("times"@) =~= "\\times "@);
}

fn symbol_tex_of(c: char) -> (res: Option<Vec<char>>)
    ensures
        match res {
            Some(t) => symbol_tex(c) == Some(t@),
            None => symbol_tex(c) is None,
        },
{
    if c == 'Φ' { Some(tex_command_of("Phi")) }
    else if c == 'φ' { Some(tex_command_of("phi")) }
    else if c == 'ε' || c == 'ϵ' { Some(tex_command_of("epsilon")) }
    else if c == 'α' { Some(tex_command_of("alpha")) }
    else if c == 'β' { Some(tex_command_of("beta")) }
    else if c == 'γ' { Some(tex_command_of("gamma")) }
    else if c == 'Γ' { Some(tex_command_of("Gamma")) }
    else if c == 'δ' { Some(tex_command_of("delta")) }
    else if c == 'Δ' { Some(tex_command_of("Delta")) }
    else if c == 'λ' { Some(tex_command_of("lambda")) }
    else if c == 'μ' { Some(tex_command_of("mu")) }
    else if c == 'σ' { Some(tex_command_of("sigma")) }
    else if c == 'Ω' { Some(tex_command_of("Omega")) }
    else if c == 'Θ' { Some(tex_command_of("Theta")) }
    else if c == '𝔹' { Some(chars_of("\\mathbb{B}")) }
    else if c == 'ℝ' { Some(chars_of("\\mathbb{R}")) }
    else if c == 'ℕ' { Some(chars_of("\\mathbb{N}")) }
    else if c == 'ℚ' { Some(chars_of("\\mathbb{Q}")) }
    else if c == 'ℂ' { Some(chars_of("\\mathbb{C}")) }
    else if c == '𝔼' { Some(chars_of("\\mathbb{E}")) }
    else if c == '𝓐' { Some(chars_of("\\mathcal{A}")) }
    else if c == '𝓒' { Some(chars_of("\\mathcal{C}")) }
    else if c == '𝓗' { Some(chars_of("\\mathcal{H}")) }
    else if c == '𝓚' { Some(chars_of("\\mathcal{K}")) }
    else if c == '𝓢' { Some(chars_of("\\mathcal{S}")) }
    else if c == '𝓤' { Some(chars_of("\\mathcal{U}")) }
    else if c == '𝓧' { Some(chars_of("\\mathcal{X}")) }
    else if c == '𝓨' { Some(chars_of("\\mathcal{Y}")) }
    else if c == '𝐀' { Some(chars_of("\\mathbf{A}")) }
    else if c == '𝐈' { Some(chars_of("\\mathbf{I}")) }
    else if c == '𝐊' { Some(chars_of("\\mathbf{K}")) }
    else if c == '𝐌' { Some(chars_of("\\mathbf{M}")) }
    else if c == '𝐔' { Some(chars_of("\\mathbf{U}")) }
    else if c == '𝐚' { Some(chars_of("\\boldsymbol{a}")) }
    else if c == '𝐛' { Some(chars_of("\\boldsymbol{b}")) }
    else if c == '𝐜' { Some(chars_of("\\boldsymbol{c}")) }
    else if c == '𝐩' { Some(chars_of("\\boldsymbol{p}")) }
    else if c == '𝐪' { Some(chars_of("\\boldsymbol{q}")) }
    else if c == '𝐬' { Some(chars_of("\\boldsymbol{s}")) }
    else if c == '𝐮' { Some(chars_of("\\boldsymbol{u}")) }
    else if c == '𝐱' { Some(chars_of("\\boldsymbol{x}")) }
    else if c == '𝐲' { Some(chars_of("\\boldsymbol{y}")) }
    else if c == '𝐳' { Some(chars_of("\\boldsymbol{z}")) }
    else if c == '≤' { Some(tex_command_of("le")) }
    else if c == '≥' { Some(tex_command_of("ge")) }
    else if c == '≠' { Some(tex_command_of("ne")) }
    else if c == '∈' { Some(tex_command_of("in")) }
    else if c == '∉' { Some(tex_command_of("notin")) }
    else if c == '⊂' { Some(tex_command_of("subset")) }
    else if c == '⊆' { Some(tex_command_of("subseteq")) }
    else if c == '×' { Some(tex_command_of("times")) }
    else if c == '∀' { Some(tex_command_of("forall")) }
    else if c == '∃' { Some(tex_command_of("exists")) }
    else if c == '∑' { Some(tex_command_of("sum")) }
    else if c == '∏' { Some(tex_command_of("prod")) }
    else if c == '∼' { Some(tex_command_of("sim")) }
    else if c == '→' { Some(tex_command_of("to")) }
    else if c == '↦' { Some(tex_command_of("mapsto")) }
    else if c == '⟨' { Some(chars_of("\\left\\langle ")) }
    else if c == '⟩' { Some(chars_of("\\right\\rangle ")) }
    else if c == '⌈' { Some(chars_of("\\lceil ")) }
    else if c == '⌉' { Some(chars_of("\\rceil ")) }
    else if c == '⌊' { Some(chars_of("\\lfloor ")) }
    else if c == '⌋' { Some(chars_of("\\rfloor ")) }
    else if c == '‖' || c == '∥' { Some(tex_command_of("Vert")) }
    else if c == '·' { Some(tex_command_of("cdot")) }
    else if c == '…' || c == '⋯' { Some(tex_command_of("dots")) }
    else if c == '≔' { Some(tex_command_of("coloneqq")) }
    else if c == '−' { Some(chars_of("-")) }
    else { None }
}

/// TeX for one character of math (see `char_tex`).
pub fn char_to_tex(c: char) -> (res: Vec<char>)
    ensures
        res@ == char_tex(c),
{
    match symbol_tex_of(c) {
        Some(t) => t,
        None => {
            if c == '&' || c == '%' || c == '$' || c == '#' || c == '_' || c == '{' || c == '}' {
                let mut v: Vec<char> = Vec::new();
                v.push('\\');
                v.push(c);
                assert(v@ =~= seq!['\\', c]);
                v
            } else {
                let mut v: Vec<char> = Vec::new();
                v.push(c);
                assert(v@ =~= seq![c]);
                v
            }
        },
    }
}

/// Each character of `s` turned into TeX, in order.
pub open spec fn chars_tex(s: Seq<char>) -> Seq<char>
    decreases s.len(),
{
    if s.len() == 0 {
        Seq::empty()
    } else {
        chars_tex(s.drop_last()) + char_tex(s.last())
    }
}

pub fn chars_to_tex(s: &Vec<char>) -> (res: Vec<char>)
    ensures
        res@ == chars_tex(s@),
{
    let mut out: Vec<char> = Vec::new();
    let mut i: usize = 0;
    while i < s.len()
        invariant
            i <= s.len(),
            out@ == chars_tex(s@.take(i as int)),
        decreases s.len() - i,
    {
        let t = char_to_tex(s[i]);
        push_all(&mut out, &t);
        assert(s@.take(i + 1).drop_last() == s@.take(i as int));
        i += 1;
    }
    assert(s@.take(s.len() as int) == s@);
    out
}

/// One character of text mode: backslashes become `\textbackslash{}` and
/// TeX's special characters get a backslash.
pub open spec fn text_char_tex(c: char) -> Seq<char> {
    if c == '\\' {
        "\\textbackslash{}"@
    } else if is_tex_special(c) {
        seq!['\\', c]
    } else {
        seq![c]
    }
}

pub open spec fn escape_tex_text(s: Seq<char>) -> Seq<char>
    decreases s.len(),
{
    if s.len() == 0 {
        Seq::empty()
    } else {
        escape_tex_text(s.drop_last()) + text_char_tex(s.last())
    }
}

pub fn escape_tex_text_of(s: &Vec<char>) -> (res: Vec<char>)
    ensures
        res@ == escape_tex_text(s@),
{
    let mut out: Vec<char> = Vec::new();
    let mut i: usize = 0;
    while i < s.len()
        invariant
            i <= s.len(),
            out@ == escape_tex_text(s@.take(i as int)),
        decreases s.len() - i,
    {
        let c = s[i];
        let ghost before = out@;
        if c == '\\' {
            push_str(&mut out, "\\textbackslash{}");
        } else if c == '&' || c == '%' || c == '$' || c == '#' || c == '_' || c == '{' || c
            == '}' {
            out.push('\\');
            out.push(c);
            assert(out@ =~= before + seq!['\\', c]);
        } else {
            out.push(c);
            assert(out@ =~= before + seq![c]);
        }
        assert(s@.take(i + 1).drop_last() == s@.take(i as int));
        i += 1;
    }
    assert(s@.take(s.len() as int) == s@);
    out
}

pub open spec fn has_ascii_alpha(s: Seq<char>) -> bool {
    exists|k: int| 0 <= k < s.len() && text::is_ascii_alpha(#[trigger] s[k])
}

/// A literal run of math text: blank text stays as it is; a word (letters
/// with more than one character, or with a hyphen) goes into text mode; any
/// other text becomes TeX character by character.
pub open spec fn literal_tex(s: Seq<char>) -> Seq<char> {
    if text::is_blank(s) {
        s
    } else if has_ascii_alpha(s) && (s.len() > 1 || text::contains_char(s, '-')) {
        text_literal_tex(s)
    } else {
        chars_tex(s)
    }
}

/// A quoted text literal: one character is TeX for that character; longer
/// text goes into `\text{..}`.
pub open spec fn text_literal_tex(s: Seq<char>) -> Seq<char> {
    if s.len() == 1 {
        if text::is_blank(s) {
            s
        } else {
            chars_tex(s)
        }
    } else {
        "\\text{"@ + escape_tex_text(s) + "}"@
    }
}

fn has_ascii_alpha_of(s: &Vec<char>) -> (b: bool)
    ensures
        b == has_ascii_alpha(s@),
{
    let mut i: usize = 0;
    while i < s.len()
        invariant
            i <= s.len(),
            forall|k: int| 0 <= k < i ==> !text::is_ascii_alpha(#[trigger] s@[k]),
        decreases s.len() - i,
    {
        if char_is_ascii_alpha(s[i]) {
            return true;
        }
        i += 1;
    }
    false
}

pub fn text_literal_to_tex(s: &Vec<char>) -> (res: Vec<char>)
    ensures
        res@ == text_literal_tex(s@),
{
    if s.len() == 1 {
        if is_blank_of(s) {
            s.clone()
        } else {
            chars_to_tex(s)
        }
    } else {
        let mut out = chars_of("\\text{");
        let e = escape_tex_text_of(s);
        push_all(&mut out, &e);
        push_str(&mut out, "}");
        out
    }
}

pub fn literal_to_tex(s: &Vec<char>) -> (res: Vec<char>)
    ensures
        res@ == literal_tex(s@),
{
    if is_blank_of(s) {
        s.clone()
    } else if has_ascii_alpha_of(s) && (s.len() > 1 || contains_char_in(s, '-')) {
        text_literal_to_tex(s)
    } else {
        chars_to_tex(s)
    }
}

} // verus!
