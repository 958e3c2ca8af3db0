//! The order in which classes are initialized.
//!
//! A class that is asked for and is not initialized is initialized behind
//! its super-class and behind those of its interfaces that declare a method
//! that is neither static nor abstract. A class that is initialized, or
//! that the asking thread is initializing, needs nothing. A class whose
//! initializer has failed, or that another thread is initializing, stops
//! the asking thread.

use crate::consts::{has_flags, ACC_ABSTRACT, ACC_INTERFACE, ACC_STATIC};
use crate::runtime::class_loader::pool::{ascii_bytes, is_ascii_text};
use crate::runtime::class_loader::resolve::hierarchy_ordered;
use crate::runtime::structs::{method_infos_view, Class, ClinitStatus, MethodInfo, MethodInfoView};
use vstd::prelude::*;
use vstd::string::*;

verus! {

/// Why a class cannot be initialized now.
#[derive(Debug, Clone, Copy, PartialEq, Eq, Structural)]
pub enum InitError {
    /// Another thread is initializing this class.
    Busy(usize),
    /// The initializer of this class has failed.
    Failed(usize),
}

/// Whether one of the first `n` methods is neither static nor abstract.
pub open spec fn has_default(methods: Seq<MethodInfoView>, n: int) -> bool
    decreases n,
{
    if n <= 0 {
        false
    } else {
        (!has_flags(methods[n - 1].access_flags, ACC_ABSTRACT) && !has_flags(
            methods[n - 1].access_flags,
            ACC_STATIC,
        )) || has_default(methods, n - 1)
    }
}

/// The place of the first method from `from` on that is the initializer of
/// the class.
pub open spec fn clinit_place(methods: Seq<MethodInfoView>, from: int) -> Option<int>
    decreases methods.len() - from,
{
    if from < 0 || from >= methods.len() {
        None
    } else if methods[from].name == ascii_bytes("<clinit>"@) {
        Some(from)
    } else {
        clinit_place(methods, from + 1)
    }
}

/// The classes to initialize for class `class`, in their order, behind
/// those in `acc`, which are planned already.
pub open spec fn plan_of(classes: Seq<Class>, class: usize, thread: usize, acc: Seq<usize>) -> Result<
    Seq<usize>,
    InitError,
>
    decreases class, 1int, 0int,
{
    if class >= classes.len() || acc.contains(class) {
        Ok(acc)
    } else {
        match classes[class as int].clinit_call {
            ClinitStatus::Init => Ok(acc),
            ClinitStatus::Initializing { thread: t } => if t == thread {
                Ok(acc)
            } else {
                Err(InitError::Busy(class))
            },
            ClinitStatus::Failed => Err(InitError::Failed(class)),
            ClinitStatus::NotInit => {
                let with_super = match classes[class as int].super_class {
                    Some(s) => if s < class && !has_flags(
                        classes[class as int].access_flags.bits,
                        ACC_INTERFACE,
                    ) {
                        plan_of(classes, s, thread, acc)
                    } else {
                        Ok(acc)
                    },
                    None => Ok(acc),
                };
                match with_super {
                    Err(e) => Err(e),
                    Ok(planned) => match plan_interfaces(classes, class, 0, thread, planned) {
                        Err(e) => Err(e),
                        Ok(all) => Ok(all.push(class)),
                    },
                }
            },
        }
    }
}

/// The classes to initialize for the interfaces of class `class` from
/// interface `k` on, behind those in `acc`.
pub open spec fn plan_interfaces(
    classes: Seq<Class>,
    class: usize,
    k: int,
    thread: usize,
    acc: Seq<usize>,
) -> Result<Seq<usize>, InitError>
    decreases class, 0int, classes[class as int].interfaces.len() - k,
{
    if class >= classes.len() || k < 0 || k >= classes[class as int].interfaces.len() {
        Ok(acc)
    } else {
        let interface = classes[class as int].interfaces@[k];
        let planned = if interface < class && has_default(
            method_infos_view(classes[interface as int].methods@),
            classes[interface as int].methods.len() as int,
        ) {
            plan_of(classes, interface, thread, acc)
        } else {
            Ok(acc)
        };
        match planned {
            Err(e) => Err(e),
            Ok(more) => plan_interfaces(classes, class, k + 1, thread, more),
        }
    }
}

/// Every class that is planned and was not planned before is not
/// initialized.
pub proof fn lemma_planned_are_new(classes: Seq<Class>, class: usize, thread: usize, acc: Seq<usize>)
    ensures
        plan_of(classes, class, thread, acc) matches Ok(plan) ==> forall|x: usize|
            plan.contains(x) ==> acc.contains(x) || (x < classes.len()
                && classes[x as int].clinit_call is NotInit),
    decreases class, 1int, 0int,
{
    if !(class >= classes.len() || acc.contains(class)) {
        if classes[class as int].clinit_call is NotInit {
            let with_super = match classes[class as int].super_class {
                Some(s) => if s < class && !has_flags(
                    classes[class as int].access_flags.bits,
                    ACC_INTERFACE,
                ) {
                    lemma_planned_are_new(classes, s, thread, acc);
                    plan_of(classes, s, thread, acc)
                } else {
                    Ok(acc)
                },
                None => Ok(acc),
            };
            match with_super {
                Ok(planned) => {
                    lemma_planned_interfaces_are_new(classes, class, 0, thread, planned);
                    match plan_interfaces(classes, class, 0, thread, planned) {
                        Ok(all) => {
                            let plan = all.push(class);
                            assert forall|x: usize| plan.contains(x) implies acc.contains(x) || (x
                                < classes.len() && classes[x as int].clinit_call is NotInit) by {
                                let i = choose|i: int| 0 <= i < plan.len() && plan[i] == x;
                                if i < all.len() {
                                    assert(all[i] == x);
                                    assert(all.contains(x));
                                }
                            }
                        },
                        Err(_) => {},
                    }
                },
                Err(_) => {},
            }
        }
    }
}

/// Every class that is planned for the interfaces and was not planned
/// before is not initialized.
pub proof fn lemma_planned_interfaces_are_new(
    classes: Seq<Class>,
    class: usize,
    k: int,
    thread: usize,
    acc: Seq<usize>,
)
    ensures
        plan_interfaces(classes, class, k, thread, acc) matches Ok(plan) ==> forall|x: usize|
            plan.contains(x) ==> acc.contains(x) || (x < classes.len()
                && classes[x as int].clinit_call is NotInit),
    decreases class, 0int, classes[class as int].interfaces.len() - k,
{
    if !(class >= classes.len() || k < 0 || k >= classes[class as int].interfaces.len()) {
        let interface = classes[class as int].interfaces@[k];
        let planned = if interface < class && has_default(
            method_infos_view(classes[interface as int].methods@),
            classes[interface as int].methods.len() as int,
        ) {
            lemma_planned_are_new(classes, interface, thread, acc);
            plan_of(classes, interface, thread, acc)
        } else {
            Ok(acc)
        };
        match planned {
            Ok(more) => {
                lemma_planned_interfaces_are_new(classes, class, k + 1, thread, more);
            },
            Err(_) => {},
        }
    }
}

/// The initializer of a class runs at most once: a class that was planned
/// for initialization once, and has since left the state in which it is
/// not initialized, is planned by no later plan.
pub proof fn lemma_initialized_once(
    before: Seq<Class>,
    after: Seq<Class>,
    first: usize,
    first_thread: usize,
    second: usize,
    second_thread: usize,
)
    requires
        plan_of(before, first, first_thread, Seq::empty()) is Ok,
        forall|x: usize|
            plan_of(before, first, first_thread, Seq::empty())->Ok_0.contains(x) ==> x
                < after.len() && !(after[x as int].clinit_call is NotInit),
        plan_of(after, second, second_thread, Seq::empty()) is Ok,
    ensures
        forall|x: usize|
            plan_of(before, first, first_thread, Seq::empty())->Ok_0.contains(x) ==> !plan_of(
                after,
                second,
                second_thread,
                Seq::empty(),
            )->Ok_0.contains(x),
{
    lemma_planned_are_new(after, second, second_thread, Seq::empty());
}

/// Whether one of the methods is neither static nor abstract.
pub fn declares_default(methods: &Vec<MethodInfo>) -> (yes: bool)
    ensures
        yes == has_default(method_infos_view(methods@), methods.len() as int),
{
    let mut n: usize = methods.len();
    while n > 0
        invariant
            n <= methods.len(),
            has_default(method_infos_view(methods@), methods.len() as int) == has_default(
                method_infos_view(methods@),
                n as int,
            ),
        decreases n,
    {
        assert(method_infos_view(methods@)[n - 1] == methods@[n - 1]@);
        if !methods[n - 1].access_flags.contains(ACC_ABSTRACT) && !methods[n
            - 1].access_flags.contains(ACC_STATIC) {
            return true;
        }
        n -= 1;
    }
    false
}

/// The place of the initializer among the methods.
pub fn find_clinit(methods: &Vec<MethodInfo>) -> (found: Option<usize>)
    ensures
        match found {
            Some(i) => clinit_place(method_infos_view(methods@), 0) == Some(i as int) && i
                < methods.len(),
            None => clinit_place(method_infos_view(methods@), 0).is_none(),
        },
{
    proof {
        reveal_strlit("<clinit>");
    }
    let mut i: usize = 0;
    while i < methods.len()
        invariant
            i <= methods.len(),
            clinit_place(method_infos_view(methods@), 0) == clinit_place(
                method_infos_view(methods@),
                i as int,
            ),
        decreases methods.len() - i,
    {
        assert(method_infos_view(methods@)[i as int] == methods@[i as int]@);
        proof {
            reveal_strlit("<clinit>");
        }
        if is_ascii_text(&methods[i].name, "<clinit>") {
            return Some(i);
        }
        i += 1;
    }
    None
}

/// Whether the list holds the class.
fn planned(acc: &Vec<usize>, class: usize) -> (yes: bool)
    ensures
        yes == acc@.contains(class),
{
    let mut i: usize = 0;
    while i < acc.len()
        invariant
            i <= acc.len(),
            forall|j: int| 0 <= j < i ==> acc@[j] != class,
        decreases acc.len() - i,
    {
        if acc[i] == class {
            assert(acc@[i as int] == class);
            return true;
        }
        i += 1;
    }
    false
}

/// Plans the initialization of class `class`: puts behind `acc` the
/// classes that have to be initialized, in their order.
pub fn plan_initialization(classes: &Vec<Class>, class: usize, thread: usize, acc: Vec<usize>) -> (r:
    Result<Vec<usize>, InitError>)
    requires
        class < classes.len(),
        hierarchy_ordered(classes@),
    ensures
        match r {
            Ok(plan) => plan_of(classes@, class, thread, acc@) == Ok::<
                Seq<usize>,
                InitError,
            >(plan@),
            Err(e) => plan_of(classes@, class, thread, acc@) == Err::<
                Seq<usize>,
                InitError,
            >(e),
        },
    decreases class, 1int, 0int,
{
    if planned(&acc, class) {
        return Ok(acc);
    }
    match classes[class].clinit_call {
        ClinitStatus::Init => {
            return Ok(acc);
        },
        ClinitStatus::Initializing { thread: t } => {
            if t == thread {
                return Ok(acc);
            }
            return Err(InitError::Busy(class));
        },
        ClinitStatus::Failed => {
            return Err(InitError::Failed(class));
        },
        ClinitStatus::NotInit => {},
    }
    let mut plan = acc;
    match classes[class].super_class {
        Some(s) => {
            if !classes[class].access_flags.contains(ACC_INTERFACE) {
                plan = match plan_initialization(classes, s, thread, plan) {
                    Ok(plan) => plan,
                    Err(e) => {
                        return Err(e);
                    },
                };
            }
        },
        None => {},
    }
    let listed = &classes[class].interfaces;
    let mut k: usize = 0;
    while k < listed.len()
        invariant
            k <= listed.len(),
            class < classes.len(),
            hierarchy_ordered(classes@),
            listed == &classes[class as int].interfaces,
            !acc@.contains(class),
            classes[class as int].clinit_call is NotInit,
            plan_of(classes@, class, thread, acc@) == (match plan_interfaces(
                classes@,
                class,
                k as int,
                thread,
                plan@,
            ) {
                Ok(all) => Ok::<Seq<usize>, InitError>(all.push(class)),
                Err(e) => Err::<Seq<usize>, InitError>(e),
            }),
        decreases listed.len() - k,
    {
        let interface = listed[k];
        assert(classes@[class as int].interfaces@[k as int] < class);
        if declares_default(&classes[interface].methods) {
            plan = match plan_initialization(classes, interface, thread, plan) {
                Ok(plan) => plan,
                Err(e) => {
                    return Err(e);
                },
            };
        }
        k += 1;
    }
    plan.push(class);
    Ok(plan)
}

} // verus!
