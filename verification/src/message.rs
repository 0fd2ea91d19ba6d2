//! The line of commentary printed under the penguin.
use vstd::prelude::*;
use rand::seq::SliceRandom;
use rand::SeedableRng;

verus! {

/// The lines the penguin may say.
pub open spec fn teasing_messages() -> Seq<Seq<char>> {
    seq![
        "Back to Linux? Finally escaping the Windows dumpster."@,
        "Windows blinded you for too long, glad you woke up."@,
        "Leaving Windows for Linux… pain first, growth later."@,
        "From now on, you’ll feel freedom, while Windows keeps you trapped in the past."@,
        "Congrats, you just escaped the Blue Screen disaster."@,
        "Back on Linux? Enjoy the difference: fast, smooth, no stupid popups."@,
        "Windows gives illusions, Linux gives real power."@,
        "Finally leaving Windows, no more being led around by crashes."@,
        "Windows is a crying child, Linux is a grown-up playing the real game."@,
        "You left Windows, congrats on escaping the endless update nightmare."@,
    ]
}

/// The standard generator of `rand`, seeded once and never reseeded.
#[verifier::external_type_specification]
#[verifier::external_body]
pub struct ExStdRng(rand::rngs::StdRng);

/// Calls `SeedableRng::from_rng` of `rand` for `StdRng`, seeding it from
/// `OsRng`. As the source shows, a failure of the operating system's source
/// comes back as an error (here `None`) rather than a panic. Nothing is
/// stated of when that happens or of the seed.
#[verifier::external_body]
fn seeded_rng() -> Option<rand::rngs::StdRng> {
    rand::rngs::StdRng::from_rng(rand::rngs::OsRng).ok()
}

/// Calls `SliceRandom::choose` of `rand` on the messages. As its source
/// shows, it gives `None` exactly for an empty slice and otherwise one of the
/// slice's items; which one is left to chance and is not stated.
#[verifier::external_body]
fn choose_message(messages: &Vec<&'static str>, rng: &mut rand::rngs::StdRng) -> (r: Option<
    &'static str,
>)
    ensures
        r is None <==> messages@.len() == 0,
        r matches Some(m) ==> exists|i: int| 0 <= i < messages@.len() && messages@[i]@ == m@,
{
    messages.as_slice().choose(rng).copied()
}

/// The penguin's lines, in order: the list the random pick is made from.
pub fn teasing_message_list() -> (v: Vec<&'static str>)
    ensures
        v@.map_values(|s: &'static str| s@) == teasing_messages(),
{
    let messages: Vec<&'static str> = vec![
        "Back to Linux? Finally escaping the Windows dumpster.",
        "Windows blinded you for too long, glad you woke up.",
        "Leaving Windows for Linux… pain first, growth later.",
        "From now on, you’ll feel freedom, while Windows keeps you trapped in the past.",
        "Congrats, you just escaped the Blue Screen disaster.",
        "Back on Linux? Enjoy the difference: fast, smooth, no stupid popups.",
        "Windows gives illusions, Linux gives real power.",
        "Finally leaving Windows, no more being led around by crashes.",
        "Windows is a crying child, Linux is a grown-up playing the real game.",
        "You left Windows, congrats on escaping the endless update nightmare.",
    ];
    assert(messages@.map_values(|s: &'static str| s@) =~= teasing_messages());
    messages
}

/// One of the penguin's lines (`teasing_message_list`), picked at random;
/// `Linux remembers.` where no random generator could be seeded.
pub fn get_message() -> (m: &'static str)
    ensures
        teasing_messages().contains(m@) || m@ == "Linux remembers."@,
{
    let messages = teasing_message_list();
    let choice = match seeded_rng() {
        Some(mut rng) => choose_message(&messages, &mut rng),
        None => None,
    };
    proof {
        if let Some(m) = choice {
            let i = choose|i: int| 0 <= i < messages@.len() && messages@[i]@ == m@;
            assert(teasing_messages()[i] == m@);
        }
    }
    message_or_default(choice)
}

/// The line picked, or `Linux remembers.` where there was none to pick.
pub fn message_or_default(choice: Option<&'static str>) -> (m: &'static str)
    ensures
        m@ == match choice {
            Some(c) => c@,
            None => "Linux remembers."@,
        },
{
    match choice {
        Some(c) => c,
        None => "Linux remembers.",
    }
}

} // verus!
