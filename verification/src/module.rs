//! Lifecycle of the loadable module: what it is asked, what it answers, and its status.

use vstd::prelude::*;

verus! {

/// First word of the status: "BAU1".
pub const MAGIC: u32 = 0x4241_5531;

/// Answer to a request that succeeded.
pub const DONE: i32 = 0;

/// `value` cut or filled up with zeroes to `size` bytes.
pub open spec fn packed(value: Seq<u8>, size: nat) -> Seq<u8> {
    Seq::new(
        size,
        |i: int|
            if i < value.len() {
                value[i]
            } else {
                0
            },
    )
}

pub fn pack<const N: usize>(value: &[u8]) -> (field: [u8; N])
    ensures
        field@ == packed(value@, N as nat),
{
    let mut field: [u8; N] = [0; N];
    let mut i: usize = 0;
    while i < value.len() && i < N
        invariant
            i <= value@.len(),
            i <= N,
            field@.len() == N,
            forall|k: int| 0 <= k < i ==> #[trigger] field@[k] == value@[k],
            forall|k: int| i <= k < N ==> #[trigger] field@[k] == 0,
        decreases N - i,
    {
        field[i] = value[i];
        i += 1;
    }
    assert(field@ =~= packed(value@, N as nat));
    field
}

/// A result code as a status word.
pub open spec fn code_word(code: i32) -> u32 {
    if code < 0 {
        (code + 0x1_0000_0000) as u32
    } else {
        code as u32
    }
}

fn word_of(code: i32) -> (word: u32)
    ensures
        word == code_word(code),
{
    if code < 0 {
        (code as i64 + 0x1_0000_0000) as u32
    } else {
        code as u32
    }
}

pub open spec fn flag_word(flag: bool) -> u32 {
    if flag {
        1
    } else {
        0
    }
}

/// Whether the module runs, whether it has become part of the system until the next reboot, and
/// the last error.
#[derive(Copy, Clone, Debug, PartialEq, Eq, Structural)]
pub struct ModuleState {
    pub active: bool,
    pub resident: bool,
    pub last_error: u32,
}

impl Default for ModuleState {
    fn default() -> (state: Self)
        ensures
            state == (ModuleState { active: false, resident: false, last_error: 0 }),
    {
        ModuleState { active: false, resident: false, last_error: 0 }
    }
}

impl ModuleState {
    pub open spec fn prepares(self, code: i32, after: ModuleState) -> bool {
        &&& code == DONE
        &&& after == (ModuleState { active: false, resident: false, last_error: 0 })
    }

    pub open spec fn activates(
        self,
        target_code: i32,
        target_resident: Option<bool>,
        code: i32,
        after: ModuleState,
    ) -> bool {
        &&& code == target_code
        &&& after == (if target_code == DONE {
            ModuleState {
                active: true,
                resident: match target_resident {
                    Some(resident) => resident,
                    None => self.resident,
                },
                ..self
            }
        } else {
            ModuleState { last_error: code_word(target_code), ..self }
        })
    }

    pub open spec fn deactivates(self, reboot_required: i32, code: i32, after: ModuleState) -> bool {
        if self.resident {
            code == reboot_required && after == self
        } else {
            code == DONE && after == (ModuleState { active: false, ..self })
        }
    }

    pub open spec fn publishes(self, install_code: i32, code: i32, after: ModuleState) -> bool {
        &&& code == install_code
        &&& after == (if install_code == DONE {
            self
        } else {
            ModuleState { last_error: code_word(install_code), ..self }
        })
    }

    pub fn prepare(&mut self) -> (code: i32)
        ensures
            old(self).prepares(code, *final(self)),
    {
        self.active = false;
        self.resident = false;
        self.last_error = 0;
        DONE
    }

    /// The target was activated with the given result. A target that stays in the system says so;
    /// without a target nothing changes in that.
    pub fn activate(&mut self, target_code: i32, target_resident: Option<bool>) -> (code: i32)
        ensures
            old(self).activates(target_code, target_resident, code, *final(self)),
    {
        if target_code == DONE {
            self.active = true;
            if let Some(resident) = target_resident {
                self.resident = resident;
            }
            DONE
        } else {
            self.last_error = word_of(target_code);
            target_code
        }
    }

    /// A resident module cannot be taken out: the answer is then that a reboot is required.
    pub fn deactivate(&mut self, reboot_required: i32) -> (code: i32)
        ensures
            old(self).deactivates(reboot_required, code, *final(self)),
    {
        if self.resident {
            return reboot_required;
        }
        self.active = false;
        DONE
    }

    pub fn stop(&mut self, reboot_required: i32) -> (code: i32)
        ensures
            old(self).deactivates(reboot_required, code, *final(self)),
    {
        self.deactivate(reboot_required)
    }

    pub open spec fn status_words(self, target: Seq<u32>) -> Seq<u32> {
        seq![MAGIC, flag_word(self.active), flag_word(self.resident), self.last_error] + target
    }

    /// The words of the status, those of the target last.
    pub fn query(&self, target: &[u32]) -> (words: Vec<u32>)
        ensures
            words@ == self.status_words(target@),
    {
        let mut words: Vec<u32> = Vec::new();
        words.push(MAGIC);
        words.push(
            if self.active {
                1
            } else {
                0
            },
        );
        words.push(
            if self.resident {
                1
            } else {
                0
            },
        );
        words.push(self.last_error);
        let mut i: usize = 0;
        assert(words@ =~= self.status_words(target@.take(0)));
        while i < target.len()
            invariant
                i <= target@.len(),
                words@ == self.status_words(target@.take(i as int)),
            decreases target@.len() - i,
        {
            words.push(target[i]);
            i += 1;
            assert(words@ =~= self.status_words(target@.take(i as int)));
        }
        assert(target@.take(i as int) =~= target@);
        words
    }

    /// The native app was installed with the given result.
    pub fn publish_native_app(&mut self, install_code: i32) -> (code: i32)
        ensures
            old(self).publishes(install_code, code, *final(self)),
    {
        if install_code != DONE {
            self.last_error = word_of(install_code);
        }
        install_code
    }
}

/// A status word gives the result code back.
pub proof fn law_code_words_are_distinct(first: i32, second: i32)
    requires
        code_word(first) == code_word(second),
    ensures
        first == second,
{
}

/// The life of a module: it is prepared with nothing running and nothing wrong, and is active once
/// its target was activated without an error. An error is kept, and changes nothing else.
pub proof fn law_activation(
    before: ModuleState,
    prepared_code: i32,
    prepared: ModuleState,
    target_code: i32,
    target_resident: Option<bool>,
    code: i32,
    after: ModuleState,
)
    requires
        before.prepares(prepared_code, prepared),
        prepared.activates(target_code, target_resident, code, after),
    ensures
        prepared_code == 0,
        !prepared.active && !prepared.resident && prepared.last_error == 0,
        code == target_code,
        after.active <==> target_code == 0,
        after.resident <==> target_code == 0 && target_resident == Some(true),
        (after.last_error - target_code) % 0x1_0000_0000 == 0,
{
}

/// Activation that fails leaves a module as it was, but for the error; one that succeeds keeps an
/// earlier error.
pub proof fn law_errors_are_kept(
    before: ModuleState,
    target_code: i32,
    target_resident: Option<bool>,
    code: i32,
    after: ModuleState,
)
    requires
        before.activates(target_code, target_resident, code, after),
    ensures
        target_code != 0 ==> after.active == before.active && after.resident == before.resident,
        target_code == 0 ==> after.active && after.last_error == before.last_error,
        target_code == 0 && target_resident is None ==> after.resident == before.resident,
        target_code == 0 && target_resident is Some ==> after.resident == target_resident->Some_0,
{
}

/// A module is deactivated unless it has become resident: then it stays as it is, and a reboot is
/// required.
pub proof fn law_resident_modules_stay(
    before: ModuleState,
    reboot_required: i32,
    code: i32,
    after: ModuleState,
)
    requires
        before.deactivates(reboot_required, code, after),
    ensures
        before.resident ==> after == before && code == reboot_required,
        !before.resident ==> !after.active && code == 0,
        after.resident == before.resident,
        after.last_error == before.last_error,
{
}

/// The result of installing the app is handed on; an error is kept, and nothing else changes.
pub proof fn law_publishing_hands_the_result_on(
    before: ModuleState,
    install_code: i32,
    code: i32,
    after: ModuleState,
)
    requires
        before.publishes(install_code, code, after),
    ensures
        code == install_code,
        after.active == before.active && after.resident == before.resident,
        install_code == 0 ==> after.last_error == before.last_error,
        install_code != 0 ==> (after.last_error - install_code) % 0x1_0000_0000 == 0,
{
}

/// The status, word by word: the mark of the module, whether it is active, whether it is resident,
/// the last error, and then what the target says.
pub proof fn law_status_words(state: ModuleState, target: Seq<u32>)
    ensures
        ({
            let words = state.status_words(target);
            &&& words.len() == 4 + target.len()
            &&& words[0] == 0x4241_5531
            &&& words[1] == 1 <==> state.active
            &&& words[1] == 0 <==> !state.active
            &&& words[2] == 1 <==> state.resident
            &&& words[2] == 0 <==> !state.resident
            &&& words[3] == state.last_error
            &&& forall|i: int| 0 <= i < target.len() ==> words[4 + i] == #[trigger] target[i]
        }),
{
}

/// A field holds its text from the beginning, as far as it fits, and zeroes behind it.
pub proof fn law_fields_are_padded(value: Seq<u8>, size: nat)
    ensures
        packed(value, size).len() == size,
        forall|i: int|
            0 <= i < size && i < value.len() ==> #[trigger] packed(value, size)[i] == value[i],
        forall|i: int| value.len() <= i < size ==> #[trigger] packed(value, size)[i] == 0,
{
}

} // verus!
