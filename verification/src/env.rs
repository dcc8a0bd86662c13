//! The environment as a list of variables.
use vstd::prelude::*;

use crate::text::same_text;

verus! {

/// A variable of the environment.
#[derive(Debug, PartialEq, Eq)]
pub struct EnvVar {
    pub name: String,
    pub value: String,
}

/// The value of a variable: that of its first entry.
pub open spec fn env_value(env: Seq<EnvVar>, name: Seq<char>) -> Option<Seq<char>>
    decreases env.len(),
{
    if env.len() == 0 {
        None
    } else if env[0].name@ == name {
        Some(env[0].value@)
    } else {
        env_value(env.skip(1), name)
    }
}

/// The value of a variable.
pub fn env_get(env: &Vec<EnvVar>, name: &str) -> (r: Option<String>)
    ensures
        r.deep_view() == env_value(env@, name@),
{
    let mut i: usize = 0;
    assert(env@.skip(0) =~= env@);
    while i < env.len()
        invariant
            i <= env@.len(),
            env_value(env@.skip(i as int), name@) == env_value(env@, name@),
        decreases env.len() - i,
    {
        assert(env@.skip(i as int)[0] == env@[i as int]);
        assert(env@.skip(i as int).skip(1) =~= env@.skip(i + 1));
        if same_text(env[i].name.as_str(), name) {
            return Some(env[i].value.clone());
        }
        i = i + 1;
    }
    None
}

/// A variable that is set once has that value; one that is not set has none.
pub proof fn lemma_variable(env: Seq<EnvVar>, name: Seq<char>, i: int)
    ensures
        0 <= i < env.len() && env[i].name@ == name && (forall|j: int|
            0 <= j < i ==> (#[trigger] env[j]).name@ != name) ==> env_value(env, name) == Some(
            env[i].value@,
        ),
        (forall|j: int| 0 <= j < env.len() ==> (#[trigger] env[j]).name@ != name) ==> env_value(
            env,
            name,
        ) is None,
    decreases env.len(),
{
    if env.len() > 0 {
        let rest = env.skip(1);
        lemma_variable(rest, name, i - 1);
        assert forall|j: int| 0 <= j < rest.len() implies #[trigger] rest[j] == env[j + 1] by {}
    }
}

} // verus!
