//! The (port, address) product, iterated in port-major order.

use vstd::prelude::*;
use crate::address::{arwah_clone_ips, ArwahIpAddress};
use crate::input::arwah_clone_ports;

verus! {

/// One probe target.
#[derive(Debug, Clone, Copy, PartialEq, Eq, Structural)]
pub struct ArwahSocketAddress {
    pub ip: ArwahIpAddress,
    pub port: u16,
}

/// Lazy iteration of every (port, address) pair: all addresses for the
/// first port, then all for the second, and so on.
pub struct ArwahSocket {
    pub ips: Vec<ArwahIpAddress>,
    pub ports: Vec<u16>,
    pub port_index: usize,
    pub ip_index: usize,
}

impl ArwahSocket {
    /// Pairs handed out so far.
    pub open spec fn spec_emitted(self) -> nat {
        if self.ips@.len() == 0 {
            0
        } else {
            (self.port_index as int * self.ips@.len() as int + self.ip_index as int) as nat
        }
    }

    /// How many pairs the product holds.
    pub open spec fn spec_total(self) -> nat {
        (self.ips@.len() * self.ports@.len()) as nat
    }

    /// The pair at position `k` of the port-major order.
    pub open spec fn spec_pair_at(self, k: int) -> ArwahSocketAddress {
        ArwahSocketAddress {
            ip: self.ips@[k % self.ips@.len() as int],
            port: self.ports@[k / self.ips@.len() as int],
        }
    }

    /// The iterator's structural invariant.
    pub open spec fn wf(self) -> bool {
        &&& self.ips@.len() > 0 ==> self.ip_index < self.ips@.len() && self.port_index
            <= self.ports@.len() && (self.port_index == self.ports@.len() ==> self.ip_index == 0)
        &&& self.ips@.len() == 0 ==> self.port_index == self.ports@.len()
    }

    /// The addresses the product runs over.
    pub open spec fn spec_ips(self) -> Seq<ArwahIpAddress> {
        self.ips@
    }

    /// The ports the product runs over.
    pub open spec fn spec_ports(self) -> Seq<u16> {
        self.ports@
    }

    /// The pair at a port-major position, written with the port and address
    /// indices: position `pi * |ips| + ii` pairs port `pi` with address
    /// `ii`.
    pub proof fn lemma_pair_at_port_major(self, pi: int, ii: int)
        requires
            0 <= pi < self.spec_ports().len(),
            0 <= ii < self.spec_ips().len(),
        ensures
            pi * self.spec_ips().len() + ii < self.spec_total(),
            self.spec_pair_at(pi * self.spec_ips().len() + ii) == (ArwahSocketAddress {
                ip: self.spec_ips()[ii],
                port: self.spec_ports()[pi],
            }),
    {
        let n = self.spec_ips().len() as int;
        let k = pi * n + ii;
        vstd::arithmetic::div_mod::lemma_fundamental_div_mod_converse(k, n, pi, ii);
        vstd::arithmetic::mul::lemma_mul_inequality(pi + 1, self.spec_ports().len() as int, n);
        assert((pi + 1) * n == pi * n + n) by (nonlinear_arith);
        vstd::arithmetic::mul::lemma_mul_is_commutative(self.spec_ports().len() as int, n);
    }

    /// Builds the product over the given addresses and ports.
    pub fn arwah_new(ips: &Vec<ArwahIpAddress>, ports: &Vec<u16>) -> (r: Self)
        ensures
            r.wf(),
            r.spec_ips() == ips@,
            r.spec_ports() == ports@,
            r.spec_emitted() == 0,
    {
        let port_index = if ips.len() == 0 {
            ports.len()
        } else {
            0
        };
        let r = ArwahSocket {
            ips: arwah_clone_ips(ips),
            ports: arwah_clone_ports(ports),
            port_index,
            ip_index: 0,
        };
        r
    }

    /// Hands out the next pair of the port-major order, or nothing once the
    /// product is exhausted.
    pub fn arwah_next(&mut self) -> (r: Option<ArwahSocketAddress>)
        requires
            old(self).wf(),
        ensures
            final(self).wf(),
            final(self).spec_ips() == old(self).spec_ips(),
            final(self).spec_ports() == old(self).spec_ports(),
            forall|k: int| final(self).spec_pair_at(k) == old(self).spec_pair_at(k),
            old(self).spec_emitted() < old(self).spec_total() ==> r == Some(
                old(self).spec_pair_at(old(self).spec_emitted() as int),
            ) && final(self).spec_emitted() == old(self).spec_emitted() + 1,
            old(self).spec_emitted() >= old(self).spec_total() ==> r is None
                && final(self).spec_emitted() == old(self).spec_emitted(),
    {
        if self.ips.len() == 0 || self.port_index >= self.ports.len() {
            proof {
                if self.ips@.len() > 0 {
                    vstd::arithmetic::mul::lemma_mul_inequality(
                        self.ports@.len() as int,
                        self.port_index as int,
                        self.ips@.len() as int,
                    );
                    assert(self.spec_emitted() >= self.spec_total());
                }
            }
            return None;
        }
        let pair = ArwahSocketAddress { ip: self.ips[self.ip_index], port: self.ports[self.port_index] };
        let ghost k = self.spec_emitted() as int;
        proof {
            let n = self.ips@.len() as int;
            assert(self.port_index * n + self.ip_index == k);
            vstd::arithmetic::div_mod::lemma_fundamental_div_mod_converse(
                k,
                n,
                self.port_index as int,
                self.ip_index as int,
            );
            assert(k % n == self.ip_index as int);
            assert(k / n == self.port_index as int);
            vstd::arithmetic::mul::lemma_mul_inequality(
                self.port_index as int + 1,
                self.ports@.len() as int,
                n,
            );
            assert((self.port_index + 1) * n == self.port_index * n + n) by (nonlinear_arith);
            assert(self.port_index * n + n <= self.ports@.len() * n);
            vstd::arithmetic::mul::lemma_mul_is_commutative(
                self.ports@.len() as int,
                n,
            );
            assert(k < self.spec_total());
        }
        self.ip_index += 1;
        if self.ip_index >= self.ips.len() {
            self.ip_index = 0;
            self.port_index += 1;
            proof {
                let n = self.ips@.len() as int;
                assert(self.port_index * n == (self.port_index - 1) * n + n) by (nonlinear_arith);
            }
        }
        Some(pair)
    }
}

} // verus!
