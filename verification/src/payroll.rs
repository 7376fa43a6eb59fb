//! The payroll system: the salaried-employee register with admin-gated
//! mutations.

use vstd::prelude::*;
use crate::AccountId;

verus! {

/// Why a payroll operation was refused.
#[derive(Clone, Copy, Debug, PartialEq, Eq, Structural)]
pub enum PayrollError {
    /// The principal is not the configured administrator.
    Unauthorized,
    /// An employee is already registered under the address.
    DuplicateEntry,
    /// No employee is registered under the address.
    EmployeeNotFound,
}

/// One salaried employee.
#[derive(Debug)]
pub struct Employee {
    /// The employee's identity; unique in the register.
    pub address: AccountId,
    pub name: String,
    pub salary: i128,
    pub role: String,
    /// Whether the employee is currently on the payroll.
    pub active: bool,
}

impl Clone for Employee {
    fn clone(&self) -> (other: Self)
        ensures
            other == *self,
    {
        Employee {
            address: self.address,
            name: self.name.clone(),
            salary: self.salary,
            role: self.role.clone(),
            active: self.active,
        }
    }
}

/// The index of the first employee with the given address, or -1 when no
/// employee has it.
pub open spec fn spec_payroll_index(employees: Seq<Employee>, address: AccountId) -> int
    decreases employees.len(),
{
    if employees.len() == 0 {
        -1
    } else if employees.first().address == address {
        0
    } else {
        let rest = spec_payroll_index(employees.drop_first(), address);
        if rest == -1 {
            -1
        } else {
            rest + 1
        }
    }
}

/// What the first-match index means.
pub proof fn lemma_payroll_index(employees: Seq<Employee>, address: AccountId)
    ensures
        spec_payroll_index(employees, address) == -1 <==> (forall|i: int|
            0 <= i < employees.len() ==> (#[trigger] employees[i]).address != address),
        spec_payroll_index(employees, address) != -1 ==> {
            let at = spec_payroll_index(employees, address);
            &&& 0 <= at < employees.len()
            &&& employees[at].address == address
            &&& (forall|j: int| 0 <= j < at ==> (#[trigger] employees[j]).address != address)
        },
    decreases employees.len(),
{
    if employees.len() > 0 {
        lemma_payroll_index(employees.drop_first(), address);
        let rest = spec_payroll_index(employees.drop_first(), address);
        if employees.first().address == address {
        } else if rest == -1 {
            assert forall|i: int|
                0 <= i < employees.len() implies (#[trigger] employees[i]).address != address by {
                if i > 0 {
                    assert(employees.drop_first()[i - 1] == employees[i]);
                }
            }
        } else {
            assert(employees.drop_first()[rest] == employees[rest + 1]);
            assert forall|j: int|
                0 <= j < rest + 1 implies (#[trigger] employees[j]).address != address by {
                if j > 0 {
                    assert(employees.drop_first()[j - 1] == employees[j]);
                }
            }
        }
    }
}

/// The first-match index is `i` when the prefix before `i` is free of the
/// address and the employee at `i` has it.
pub proof fn lemma_payroll_index_at(employees: Seq<Employee>, i: int, address: AccountId)
    requires
        0 <= i < employees.len(),
        employees[i].address == address,
        forall|j: int| 0 <= j < i ==> (#[trigger] employees[j]).address != address,
    ensures
        spec_payroll_index(employees, address) == i,
    decreases i,
{
    if i > 0 {
        assert(employees.first().address != address);
        assert(employees.drop_first()[i - 1] == employees[i]);
        assert forall|j: int|
            0 <= j < i - 1 implies (#[trigger] employees.drop_first()[j]).address != address by {
            assert(employees.drop_first()[j] == employees[j + 1]);
        }
        lemma_payroll_index_at(employees.drop_first(), i - 1, address);
    }
}

/// The payroll register instance.
pub struct PayrollSystem {
    admin: AccountId,
    employees: Vec<Employee>,
}

impl PayrollSystem {
    /// The configured administrator identity.
    pub closed spec fn spec_admin(&self) -> AccountId {
        self.admin
    }

    /// The register in hiring order.
    pub closed spec fn employees(&self) -> Seq<Employee> {
        self.employees@
    }

    /// Addresses are unique in the register.
    pub closed spec fn wf(&self) -> bool {
        forall|i: int, j: int|
            0 <= i < j < self.employees@.len() ==> (#[trigger] self.employees@[i]).address != (
            #[trigger] self.employees@[j]).address
    }

    /// A fresh payroll register.
    pub fn initialize(admin: AccountId) -> (system: Self)
        ensures
            system.wf(),
            system.spec_admin() == admin,
            system.employees() == Seq::<Employee>::empty(),
    {
        PayrollSystem { admin, employees: Vec::new() }
    }

    /// Registers an employee on the payroll. Admin-gated; rejects a
    /// duplicate address. The new employee starts active.
    #[verifier::loop_isolation(false)]
    pub fn add_employee(
        &mut self,
        admin: AccountId,
        employee_address: AccountId,
        name: String,
        salary: i128,
        role: String,
    ) -> (outcome: Result<Employee, PayrollError>)
        requires
            old(self).wf(),
        ensures
            final(self).wf(),
            final(self).spec_admin() == old(self).spec_admin(),
            admin != old(self).spec_admin() ==> outcome == Err::<Employee, PayrollError>(
                PayrollError::Unauthorized,
            ) && *final(self) == *old(self),
            admin == old(self).spec_admin() && spec_payroll_index(
                old(self).employees(),
                employee_address,
            ) != -1 ==> outcome == Err::<Employee, PayrollError>(PayrollError::DuplicateEntry)
                && *final(self) == *old(self),
            admin == old(self).spec_admin() && spec_payroll_index(
                old(self).employees(),
                employee_address,
            ) == -1 ==> (outcome matches Ok(employee) && {
                &&& employee == (Employee {
                    address: employee_address,
                    name,
                    salary,
                    role,
                    active: true,
                })
                &&& final(self).employees() == old(self).employees().push(employee)
            }),
    {
        if admin != self.admin {
            return Err(PayrollError::Unauthorized);
        }
        proof {
            lemma_payroll_index(self.employees@, employee_address);
        }
        let n = self.employees.len();
        let mut i: usize = 0;
        while i < n
            invariant
                i <= n,
                n == self.employees@.len(),
                forall|j: int|
                    0 <= j < i ==> (#[trigger] self.employees@[j]).address != employee_address,
                *self == *old(self),
            decreases n - i,
        {
            if self.employees[i].address == employee_address {
                return Err(PayrollError::DuplicateEntry);
            }
            i += 1;
        }
        let employee = Employee { address: employee_address, name, salary, role, active: true };
        let stored = employee.clone();
        proof {
            let p = self.employees@.push(stored);
            assert forall|a: int, b: int|
                0 <= a < b < p.len() implies (#[trigger] p[a]).address != (
            #[trigger] p[b]).address by {
                if b < self.employees@.len() {
                    assert(p[a] == self.employees@[a]);
                    assert(p[b] == self.employees@[b]);
                } else {
                    assert(p[a] == self.employees@[a]);
                    assert(p[b] == stored);
                }
            }
        }
        self.employees.push(stored);
        Ok(employee)
    }

    /// Returns the whole register, in hiring order.
    pub fn get_employees(&self) -> (listed: Vec<Employee>)
        ensures
            listed@ == self.employees(),
    {
        let listed = self.employees.clone();
        proof {
            assert(listed@ =~= self.employees@);
        }
        listed
    }

    /// Sets whether an employee is on the payroll. Admin-gated.
    #[verifier::loop_isolation(false)]
    pub fn update_employee_status(
        &mut self,
        admin: AccountId,
        employee_address: AccountId,
        active: bool,
    ) -> (outcome: Result<Employee, PayrollError>)
        requires
            old(self).wf(),
        ensures
            final(self).wf(),
            final(self).spec_admin() == old(self).spec_admin(),
            admin != old(self).spec_admin() ==> outcome == Err::<Employee, PayrollError>(
                PayrollError::Unauthorized,
            ) && *final(self) == *old(self),
            admin == old(self).spec_admin() && spec_payroll_index(
                old(self).employees(),
                employee_address,
            ) == -1 ==> outcome == Err::<Employee, PayrollError>(PayrollError::EmployeeNotFound)
                && *final(self) == *old(self),
            admin == old(self).spec_admin() && spec_payroll_index(
                old(self).employees(),
                employee_address,
            ) != -1 ==> (outcome matches Ok(employee) && {
                let at = spec_payroll_index(old(self).employees(), employee_address);
                &&& employee == (Employee { active, ..old(self).employees()[at] })
                &&& final(self).employees() == old(self).employees().update(at, employee)
            }),
    {
        if admin != self.admin {
            return Err(PayrollError::Unauthorized);
        }
        proof {
            lemma_payroll_index(self.employees@, employee_address);
        }
        let n = self.employees.len();
        let mut i: usize = 0;
        while i < n
            invariant
                i <= n,
                n == self.employees@.len(),
                forall|j: int|
                    0 <= j < i ==> (#[trigger] self.employees@[j]).address != employee_address,
                *self == *old(self),
            decreases n - i,
        {
            if self.employees[i].address == employee_address {
                proof {
                    lemma_payroll_index_at(self.employees@, i as int, employee_address);
                }
                let found = &self.employees[i];
                let updated = Employee {
                    address: found.address,
                    name: found.name.clone(),
                    salary: found.salary,
                    role: found.role.clone(),
                    active,
                };
                let stored = updated.clone();
                proof {
                    let changed = self.employees@.update(i as int, stored);
                    assert forall|a: int, b: int|
                        0 <= a < b < changed.len() implies (#[trigger] changed[a]).address != (
                    #[trigger] changed[b]).address by {
                        assert(self.employees@[a].address != self.employees@[b].address);
                    }
                }
                self.employees.set(i, stored);
                return Ok(updated);
            }
            i += 1;
        }
        Err(PayrollError::EmployeeNotFound)
    }

    /// The greeting of this system.
    pub fn hello(&self) -> (greeting: String)
        ensures
            greeting@ == "Hello from PayrollSystem!"@,
    {
        String::from_str("Hello from PayrollSystem!")
    }
}

} // verus!
