use vstd::prelude::*;

use git2::Oid;

use crate::item::Render;

verus! {

/// git2's `Oid`, the id of a commit, carried through as an opaque value.
#[verifier::external_type_specification]
#[verifier::external_body]
pub struct ExOid(Oid);

/// What the list shows of one branch: its tip commit and who wrote it.
pub struct BranchDetails {
    pub name: String,
    pub oid: Oid,
    pub short_id: String,
    pub author_name: String,
    pub author_email: String,
    pub summary: String,
}

impl BranchDetails {
    /// The id of the branch's tip commit.
    pub fn get_oid(&self) -> (r: Oid)
        ensures
            r == self.oid,
    {
        self.oid
    }
}

impl Render for BranchDetails {
    /// `<short id> <author> "<email>" - <branch>|<summary>`
    open spec fn text(&self) -> Seq<char> {
        self.short_id@ + seq![' '] + self.author_name@ + seq![' ', '"'] + self.author_email@ + seq![
            '"',
            ' ',
            '-',
            ' ',
        ] + self.name@ + seq!['|'] + self.summary@
    }

    fn render(&self) -> (r: String) {
        proof {
            reveal_strlit(" ");
            reveal_strlit(" \"");
            reveal_strlit("\" - ");
            reveal_strlit("|");
        }
        let r = self.short_id.clone().concat(" ").concat(self.author_name.as_str()).concat(
            " \"",
        ).concat(self.author_email.as_str()).concat("\" - ").concat(self.name.as_str()).concat(
            "|",
        ).concat(self.summary.as_str());
        assert(r@ =~= self.text());
        r
    }
}

} // verus!
