//! A capability-based microkernel whose decisions are proved.
//!
//! Everything a process can do it does through a capability: a reference to a kernel object
//! together with the rights it gives. The crate holds the kernel's tables and every decision
//! over them, each with a contract that says exactly what it does to the tables and what it
//! returns. It does not touch hardware, queues or the clock. Where a decision depends on one of
//! these, it comes in steps: a step ends either with the outcome or with a request, and the next
//! step takes the reply to that request as a value. Whatever the reply, the contracts hold.
//!
//! - Capabilities: [`rights`], [`capability`], [`cdt`] (the capability table and the derivation
//!   forest over all tables), [`ids`].
//! - The kernel's objects: [`objects`], [`tcb`], [`state`] (all tables), [`config`], [`message`].
//! - Building the initial state: [`boot`], [`memory`].
//! - System calls: [`syscall`] (what a call, a request and a reply are), [`dispatch`] and, per
//!   group of calls, [`grant`], [`retype`], [`mapping`], [`ipc`], [`notify`].
//! - Scheduling decisions: [`preempt`], [`run`].
//! - Bringing up processes: [`paging`], [`enter`], [`spawn`], [`launch`] with [`pci`] and
//!   [`pci_wire`] for devices.
//! - Running them: [`handover`], [`supervise`], [`bypass`], [`service_calls`], [`inkernel`],
//!   [`report`].
//!
//! What holds across several operations is stated and proved beside them, or in modules of its
//! own.
//!
//! - What never breaks: [`cdt_laws`] (rights never grow along a derivation, revocation frees exactly
//!   a subtree), [`kernel_laws`] (every system call keeps that, loses nothing and fails without a
//!   trace), [`object_laws`] (no capability and no thread ever dangles), [`exit_laws`] (a thread
//!   exits once, for a reason that stays), [`launch_laws`], [`inkernel_laws`].
//! - What each system call is for, from its first step through every reply to its end:
//!   [`call_laws`] (messages, replies, refusals), [`authority_laws`] (granting and revoking),
//!   [`retype_laws`], [`map_laws`], [`signal_laws`]; and of the tables that they work on,
//!   [`table_laws`].
//! - What bringing the system up is for: [`boot_laws`], [`enter_laws`], [`spawn_laws`],
//!   [`service_laws`], [`driver_laws`], [`pci_laws`], [`wire_laws`], [`demo_laws`].
//! - What is asked of the services and reported of them: [`answer_laws`], [`report_laws`].

pub mod answer_laws;
pub mod authority_laws;
pub mod boot;
pub mod boot_laws;
pub mod bypass;
pub mod call_laws;
pub mod capability;
pub mod cdt;
pub mod cdt_laws;
pub mod config;
pub mod demo_laws;
pub mod dispatch;
pub mod driver_laws;
pub mod enter;
pub mod enter_laws;
pub mod exit_laws;
pub mod grant;
pub mod handover;
pub mod ids;
pub mod inkernel;
pub mod inkernel_laws;
pub mod ipc;
pub mod kernel_laws;
pub mod launch;
pub mod launch_laws;
pub mod map_laws;
pub mod mapping;
pub mod memory;
pub mod message;
pub mod notify;
pub mod object_laws;
pub mod objects;
pub mod paging;
pub mod pci;
pub mod pci_laws;
pub mod pci_wire;
pub mod preempt;
pub mod report;
pub mod report_laws;
pub mod retype;
pub mod retype_laws;
pub mod rights;
pub mod run;
pub mod service_calls;
pub mod service_laws;
pub mod signal_laws;
pub mod spawn;
pub mod spawn_laws;
pub mod state;
pub mod supervise;
pub mod syscall;
pub mod table_laws;
pub mod tcb;
pub mod wire_laws;
