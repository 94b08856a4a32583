# apollo_kernel

The verified core of the APOLLO microkernel: boot data validation, capability
tokens authenticated with HMAC-SHA256, CPU feature checks, page table flags and a
bitmap physical page allocator, each with a Verus contract.

- `src/` is the verified library.
- `tests/` exercises it on concrete values.
- `app/` is the kernel's entry point and its hardware access: globals behind
  spin locks, port and register I/O, CPUID, and serde derives on the IPC message.
