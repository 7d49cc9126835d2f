//! Preview staging: a process-scoped directory, owned elsewhere for the
//! session, in which collision-unchecked output paths for preview renders
//! are generated.

use vstd::prelude::*;

verus! {

/// An ASCII letter or digit, as the random tag characters are drawn.
pub open spec fn is_alphanumeric_ascii(c: char) -> bool {
    ('a' <= c && c <= 'z') || ('A' <= c && c <= 'Z') || ('0' <= c && c <= '9')
}

/// Relies on fastrand::alphanumeric: a character drawn from A-Z, a-z,
/// 0-9. The draw is random, so only membership in that set is promised.
#[verifier::external_body]
fn random_alphanumeric() -> (c: char)
    ensures
        is_alphanumeric_ascii(c),
{
    fastrand::alphanumeric()
}

/// Relies on String::push: appends the given character to the end of the
/// string.
#[verifier::external_body]
fn push_char(s: &mut String, c: char)
    ensures
        final(s)@ == old(s)@.push(c),
{
    s.push(c);
}

/// The shape of a staged preview path: `{root}/nordified{RRR}.png` with a
/// three-character alphanumeric tag. No collision check is made against
/// files already in the root.
pub open spec fn preview_name_shape(root: Seq<char>, p: Seq<char>) -> bool {
    &&& p.len() == root.len() + 17
    &&& p.subrange(0, root.len() as int + 10) == root + "/nordified"@
    &&& forall|k: int|
        root.len() + 10 <= k < root.len() + 13 ==> is_alphanumeric_ascii(#[trigger] p[k])
    &&& p.subrange(root.len() as int + 13, p.len() as int) == ".png"@
}

/// The staging directory for ephemeral preview renders. The directory is
/// created before the session and removed after it by whoever owns the
/// process's resources; this type only derives fresh paths inside it.
pub struct Staging {
    pub root: String,
}

impl Staging {
    /// Staging rooted at the given directory.
    pub fn new(root: String) -> (r: Staging)
        ensures
            r.root@ == root@,
    {
        Staging { root }
    }

    /// A fresh output path `{root}/nordified{RRR}.png` with a freshly
    /// drawn three-character random alphanumeric tag.
    pub fn new_output_path(&self) -> (r: String)
        ensures
            preview_name_shape(self.root@, r@),
    {
        let mut s = self.root.clone();
        s.append("/nordified");
        proof {
            reveal_strlit("/nordified");
            assert("/nordified"@.len() == 10);
        }
        let c0 = random_alphanumeric();
        push_char(&mut s, c0);
        let c1 = random_alphanumeric();
        push_char(&mut s, c1);
        let c2 = random_alphanumeric();
        push_char(&mut s, c2);
        s.append(".png");
        proof {
            reveal_strlit(".png");
            assert(".png"@.len() == 4);
            let root = self.root@;
            assert(s@.subrange(0, root.len() as int + 10) =~= root + "/nordified"@);
            assert(s@.subrange(root.len() as int + 13, s@.len() as int) =~= ".png"@);
            assert(s@[root.len() as int + 10] == c0);
            assert(s@[root.len() as int + 11] == c1);
            assert(s@[root.len() as int + 12] == c2);
        }
        s
    }
}

} // verus!
