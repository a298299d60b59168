//! Throw-away names for print jobs, put together from word lists by chance.

use vstd::prelude::*;
use vstd::string::*;

verus! {

/// The adjective that the draw `d` picks.
pub open spec fn adjective_of(d: nat) -> Seq<char> {
    let k = d % 9;
    if k == 0 {
        "German"@
    } else if k == 1 {
        "Dungeon"@
    } else if k == 2 {
        "Naughty"@
    } else if k == 3 {
        "Explicit"@
    } else if k == 4 {
        "Uncensored"@
    } else if k == 5 {
        "Dirty"@
    } else if k == 6 {
        "Family-friendly"@
    } else if k == 7 {
        "NSFW"@
    } else {
        "\"legal\""@
    }
}

/// The noun that the draw `d` picks.
pub open spec fn noun_of(d: nat) -> Seq<char> {
    let k = d % 7;
    if k == 0 {
        "Daddy"@
    } else if k == 1 {
        "Video"@
    } else if k == 2 {
        "Collage"@
    } else if k == 3 {
        "School-Assignment"@
    } else if k == 4 {
        "ResearchPaper"@
    } else if k == 5 {
        "Step-brothers"@
    } else {
        "Party"@
    }
}

/// The file extension that the draw `d` picks.
pub open spec fn extension_of(d: nat) -> Seq<char> {
    let k = d % 7;
    if k == 0 {
        ".txt"@
    } else if k == 1 {
        ".pdf"@
    } else if k == 2 {
        ".xxx"@
    } else if k == 3 {
        ".mov"@
    } else if k == 4 {
        ".torrent"@
    } else if k == 5 {
        ".cpp"@
    } else {
        ".bing"@
    }
}

/// How many draws the shape picked by `variant` uses up.
pub open spec fn slots(variant: nat) -> nat {
    let v = variant % 6;
    if v == 1 {
        2
    } else if v == 2 || v == 3 {
        3
    } else {
        4
    }
}

/// The name that the draws spell: `variant` picks one of six shapes, and the
/// words of the shape take their draws from `draws` from left to right.
pub open spec fn job_name(variant: nat, draws: Seq<usize>) -> Seq<char> {
    let v = variant % 6;
    if v == 0 {
        adjective_of(draws[0] as nat) + "-"@ + noun_of(draws[1] as nat) + "("@ + adjective_of(
            draws[2] as nat,
        ) + ")"@ + extension_of(draws[3] as nat)
    } else if v == 1 {
        adjective_of(draws[0] as nat) + "_"@ + noun_of(draws[1] as nat)
    } else if v == 2 {
        adjective_of(draws[0] as nat) + "_"@ + noun_of(draws[1] as nat) + extension_of(
            draws[2] as nat,
        )
    } else if v == 3 {
        adjective_of(draws[0] as nat) + "-"@ + noun_of(draws[1] as nat) + extension_of(
            draws[2] as nat,
        )
    } else if v == 4 {
        adjective_of(draws[0] as nat) + adjective_of(draws[1] as nat) + noun_of(draws[2] as nat)
            + extension_of(draws[3] as nat)
    } else {
        "/"@ + adjective_of(draws[0] as nat) + "/"@ + adjective_of(draws[1] as nat) + "/"@
            + adjective_of(draws[2] as nat) + extension_of(draws[3] as nat)
    }
}

/// Whether `s` is made of ASCII characters other than the single quote.
pub open spec fn plain(s: Seq<char>) -> bool {
    forall|i: int| 0 <= i < s.len() ==> (#[trigger] s[i]) as u32 <= 127 && s[i] != '\''
}

/// `rand::random::<usize>()` draws a number from the thread's generator;
/// nothing is known of the number drawn.
#[verifier::external_body]
fn random_usize() -> (r: usize) {
    rand::random::<usize>()
}

fn adjective(d: usize) -> (w: &'static str)
    ensures
        w@ == adjective_of(d as nat),
{
    let k: usize = d % 9;
    if k == 0 {
        "German"
    } else if k == 1 {
        "Dungeon"
    } else if k == 2 {
        "Naughty"
    } else if k == 3 {
        "Explicit"
    } else if k == 4 {
        "Uncensored"
    } else if k == 5 {
        "Dirty"
    } else if k == 6 {
        "Family-friendly"
    } else if k == 7 {
        "NSFW"
    } else {
        "\"legal\""
    }
}

fn noun(d: usize) -> (w: &'static str)
    ensures
        w@ == noun_of(d as nat),
{
    let k: usize = d % 7;
    if k == 0 {
        "Daddy"
    } else if k == 1 {
        "Video"
    } else if k == 2 {
        "Collage"
    } else if k == 3 {
        "School-Assignment"
    } else if k == 4 {
        "ResearchPaper"
    } else if k == 5 {
        "Step-brothers"
    } else {
        "Party"
    }
}

fn extension(d: usize) -> (w: &'static str)
    ensures
        w@ == extension_of(d as nat),
{
    let k: usize = d % 7;
    if k == 0 {
        ".txt"
    } else if k == 1 {
        ".pdf"
    } else if k == 2 {
        ".xxx"
    } else if k == 3 {
        ".mov"
    } else if k == 4 {
        ".torrent"
    } else if k == 5 {
        ".cpp"
    } else {
        ".bing"
    }
}

/// The number of draws that the shape picked by `variant` uses up.
pub fn slot_count(variant: usize) -> (n: usize)
    ensures
        n == slots(variant as nat),
{
    let v: usize = variant % 6;
    if v == 1 {
        2
    } else if v == 2 || v == 3 {
        3
    } else {
        4
    }
}

/// Spells the name for given draws.
pub fn compose(variant: usize, draws: &Vec<usize>) -> (name: String)
    requires
        draws@.len() >= slots(variant as nat),
    ensures
        name@ == job_name(variant as nat, draws@),
{
    let v: usize = variant % 6;
    let mut out = String::new();
    if v == 0 {
        out.append(adjective(draws[0]));
        out.append("-");
        out.append(noun(draws[1]));
        out.append("(");
        out.append(adjective(draws[2]));
        out.append(")");
        out.append(extension(draws[3]));
    } else if v == 1 {
        out.append(adjective(draws[0]));
        out.append("_");
        out.append(noun(draws[1]));
    } else if v == 2 {
        out.append(adjective(draws[0]));
        out.append("_");
        out.append(noun(draws[1]));
        out.append(extension(draws[2]));
    } else if v == 3 {
        out.append(adjective(draws[0]));
        out.append("-");
        out.append(noun(draws[1]));
        out.append(extension(draws[2]));
    } else if v == 4 {
        out.append(adjective(draws[0]));
        out.append(adjective(draws[1]));
        out.append(noun(draws[2]));
        out.append(extension(draws[3]));
    } else {
        out.append("/");
        out.append(adjective(draws[0]));
        out.append("/");
        out.append(adjective(draws[1]));
        out.append("/");
        out.append(adjective(draws[2]));
        out.append(extension(draws[3]));
    }
    out
}

/// Makes up a name for a print job: draws a shape, then one word for each
/// place of the shape.
pub fn generate() -> (name: String)
    ensures
        exists|variant: usize, draws: Seq<usize>|
            draws.len() == slots(variant as nat) && name@ == #[trigger] job_name(
                variant as nat,
                draws,
            ),
        name@.len() > 0,
        plain(name@),
{
    let variant: usize = random_usize();
    let n: usize = slot_count(variant);
    let mut draws: Vec<usize> = Vec::new();
    while draws.len() < n
        invariant
            draws@.len() <= n,
        decreases n - draws@.len(),
    {
        draws.push(random_usize());
    }
    let name = compose(variant, &draws);
    proof {
        lemma_job_name_plain(variant as nat, draws@);
    }
    name
}

/// Every adjective is plain and has at least one character.
pub proof fn lemma_adjective_plain(d: nat)
    ensures
        plain(adjective_of(d)),
        adjective_of(d).len() > 0,
{
    reveal_strlit("German");
    reveal_strlit("Dungeon");
    reveal_strlit("Naughty");
    reveal_strlit("Explicit");
    reveal_strlit("Uncensored");
    reveal_strlit("Dirty");
    reveal_strlit("Family-friendly");
    reveal_strlit("NSFW");
    reveal_strlit("\"legal\"");
}

/// Every noun is plain.
pub proof fn lemma_noun_plain(d: nat)
    ensures
        plain(noun_of(d)),
{
    reveal_strlit("Daddy");
    reveal_strlit("Video");
    reveal_strlit("Collage");
    reveal_strlit("School-Assignment");
    reveal_strlit("ResearchPaper");
    reveal_strlit("Step-brothers");
    reveal_strlit("Party");
}

/// Every file extension is plain.
pub proof fn lemma_extension_plain(d: nat)
    ensures
        plain(extension_of(d)),
{
    reveal_strlit(".txt");
    reveal_strlit(".pdf");
    reveal_strlit(".xxx");
    reveal_strlit(".mov");
    reveal_strlit(".torrent");
    reveal_strlit(".cpp");
    reveal_strlit(".bing");
}

/// The marks that stand between the words are plain.
pub proof fn lemma_marks_plain()
    ensures
        plain("-"@),
        plain("_"@),
        plain("("@),
        plain(")"@),
        plain("/"@),
{
    reveal_strlit("-");
    reveal_strlit("_");
    reveal_strlit("(");
    reveal_strlit(")");
    reveal_strlit("/");
}

/// Two plain texts in a row are plain.
pub proof fn lemma_plain_add(a: Seq<char>, b: Seq<char>)
    requires
        plain(a),
        plain(b),
    ensures
        plain(a + b),
{
    assert forall|i: int| 0 <= i < (a + b).len() implies (#[trigger] (a + b)[i]) as u32 <= 127 && (a
        + b)[i] != '\'' by {
        if i < a.len() {
            assert((a + b)[i] == a[i]);
        } else {
            assert((a + b)[i] == b[i - a.len()]);
        }
    }
}

/// Whatever is drawn, the name is not empty, is ASCII and holds no single
/// quote.
pub proof fn lemma_job_name_plain(variant: nat, draws: Seq<usize>)
    ensures
        job_name(variant, draws).len() > 0,
        plain(job_name(variant, draws)),
{
    let v = variant % 6;
    let a0 = adjective_of(draws[0] as nat);
    let a1 = adjective_of(draws[1] as nat);
    let a2 = adjective_of(draws[2] as nat);
    let n1 = noun_of(draws[1] as nat);
    let n2 = noun_of(draws[2] as nat);
    let e2 = extension_of(draws[2] as nat);
    let e3 = extension_of(draws[3] as nat);
    lemma_marks_plain();
    lemma_adjective_plain(draws[0] as nat);
    lemma_adjective_plain(draws[1] as nat);
    lemma_adjective_plain(draws[2] as nat);
    lemma_noun_plain(draws[1] as nat);
    lemma_noun_plain(draws[2] as nat);
    lemma_extension_plain(draws[2] as nat);
    lemma_extension_plain(draws[3] as nat);
    if v == 0 {
        lemma_plain_add(a0, "-"@);
        lemma_plain_add(a0 + "-"@, n1);
        lemma_plain_add(a0 + "-"@ + n1, "("@);
        lemma_plain_add(a0 + "-"@ + n1 + "("@, a2);
        lemma_plain_add(a0 + "-"@ + n1 + "("@ + a2, ")"@);
        lemma_plain_add(a0 + "-"@ + n1 + "("@ + a2 + ")"@, e3);
    } else if v == 1 {
        lemma_plain_add(a0, "_"@);
        lemma_plain_add(a0 + "_"@, n1);
    } else if v == 2 {
        lemma_plain_add(a0, "_"@);
        lemma_plain_add(a0 + "_"@, n1);
        lemma_plain_add(a0 + "_"@ + n1, e2);
    } else if v == 3 {
        lemma_plain_add(a0, "-"@);
        lemma_plain_add(a0 + "-"@, n1);
        lemma_plain_add(a0 + "-"@ + n1, e2);
    } else if v == 4 {
        lemma_plain_add(a0, a1);
        lemma_plain_add(a0 + a1, n2);
        lemma_plain_add(a0 + a1 + n2, e3);
    } else {
        lemma_plain_add("/"@, a0);
        lemma_plain_add("/"@ + a0, "/"@);
        lemma_plain_add("/"@ + a0 + "/"@, a1);
        lemma_plain_add("/"@ + a0 + "/"@ + a1, "/"@);
        lemma_plain_add("/"@ + a0 + "/"@ + a1 + "/"@, a2);
        lemma_plain_add("/"@ + a0 + "/"@ + a1 + "/"@ + a2, e3);
    }
}

} // verus!
