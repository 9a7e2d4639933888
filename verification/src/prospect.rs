use vstd::prelude::*;

verus! {

/// One draft prospect: a player's name, position and unique key, the year
/// they entered the draft, and five projection scores. The scores are
/// decimal text carried verbatim from the source data; this library reads
/// nothing of them beyond the characters themselves.
pub struct Prospect {
    pub player: String,
    pub position: String,
    pub id: String,
    pub draft_year: i32,
    pub projected_spm: String,
    pub superstar: String,
    pub starter: String,
    pub role_player: String,
    pub bust: String,
}

/// The mathematical value of a prospect: its text fields as character
/// sequences and its draft year as an integer.
pub ghost struct ProspectView {
    pub player: Seq<char>,
    pub position: Seq<char>,
    pub id: Seq<char>,
    pub draft_year: int,
    pub projected_spm: Seq<char>,
    pub superstar: Seq<char>,
    pub starter: Seq<char>,
    pub role_player: Seq<char>,
    pub bust: Seq<char>,
}

impl View for Prospect {
    type V = ProspectView;

    open spec fn view(&self) -> ProspectView {
        ProspectView {
            player: self.player@,
            position: self.position@,
            id: self.id@,
            draft_year: self.draft_year as int,
            projected_spm: self.projected_spm@,
            superstar: self.superstar@,
            starter: self.starter@,
            role_player: self.role_player@,
            bust: self.bust@,
        }
    }
}

impl Prospect {
    /// A field-for-field copy.
    pub fn duplicate(&self) -> (r: Prospect)
        ensures
            r == *self,
    {
        Prospect {
            player: self.player.clone(),
            position: self.position.clone(),
            id: self.id.clone(),
            draft_year: self.draft_year,
            projected_spm: self.projected_spm.clone(),
            superstar: self.superstar.clone(),
            starter: self.starter.clone(),
            role_player: self.role_player.clone(),
            bust: self.bust.clone(),
        }
    }
}

} // verus!
