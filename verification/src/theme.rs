//! The colour themes on offer.
use vstd::prelude::*;

verus! {

/// Catppuccin flavours, in the order the upstream palette lists them.
#[derive(Clone, Copy, PartialEq, Eq, Structural, Debug)]
pub enum ThemeChoice {
    Latte,
    Frappe,
    Macchiato,
    Mocha,
}

/// The name a flavour is shown under.
pub open spec fn label_text(choice: ThemeChoice) -> Seq<char> {
    match choice {
        ThemeChoice::Latte => "Latte"@,
        ThemeChoice::Frappe => "Frappe"@,
        ThemeChoice::Macchiato => "Macchiato"@,
        ThemeChoice::Mocha => "Mocha"@,
    }
}

impl ThemeChoice {
    /// Every flavour, light to dark, as offered in the settings.
    pub fn all() -> (choices: Vec<ThemeChoice>)
        ensures
            choices@ == seq![
                ThemeChoice::Latte,
                ThemeChoice::Frappe,
                ThemeChoice::Macchiato,
                ThemeChoice::Mocha,
            ],
    {
        let mut choices: Vec<ThemeChoice> = Vec::new();
        choices.push(ThemeChoice::Latte);
        choices.push(ThemeChoice::Frappe);
        choices.push(ThemeChoice::Macchiato);
        choices.push(ThemeChoice::Mocha);
        choices
    }

    /// The flavour's name.
    pub fn label(self) -> (l: &'static str)
        ensures
            l@ == label_text(self),
    {
        match self {
            ThemeChoice::Latte => "Latte",
            ThemeChoice::Frappe => "Frappe",
            ThemeChoice::Macchiato => "Macchiato",
            ThemeChoice::Mocha => "Mocha",
        }
    }
}

impl Default for ThemeChoice {
    /// Macchiato.
    fn default() -> (t: Self)
        ensures
            t == ThemeChoice::Macchiato,
    {
        ThemeChoice::Macchiato
    }
}

/// Every flavour is offered exactly once, and no two flavours share a name.
pub proof fn lemma_flavours_distinct(a: ThemeChoice, b: ThemeChoice)
    ensures
        a != b ==> label_text(a) != label_text(b),
        seq![ThemeChoice::Latte, ThemeChoice::Frappe, ThemeChoice::Macchiato, ThemeChoice::Mocha].contains(a),
{
    reveal_strlit("Latte");
    reveal_strlit("Frappe");
    reveal_strlit("Macchiato");
    reveal_strlit("Mocha");
    let all = seq![ThemeChoice::Latte, ThemeChoice::Frappe, ThemeChoice::Macchiato, ThemeChoice::Mocha];
    match a {
        ThemeChoice::Latte => assert(all[0] == a),
        ThemeChoice::Frappe => assert(all[1] == a),
        ThemeChoice::Macchiato => assert(all[2] == a),
        ThemeChoice::Mocha => assert(all[3] == a),
    }
    if a != b {
        let la = label_text(a);
        let lb = label_text(b);
        if la.len() == lb.len() {
            assert(la[0] != lb[0] || la[1] != lb[1]);
        }
    }
}

} // verus!
