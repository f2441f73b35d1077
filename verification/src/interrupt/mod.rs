pub mod apic;
