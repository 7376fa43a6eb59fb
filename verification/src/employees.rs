//! The employee manager: the roster of parties and the capability gate.
//!
//! Roles map to capabilities through a static, declarative table. A
//! mutation is capability-gated: the acting principal must be a registered,
//! active employee whose role grants the required capability. An
//! employee's stored capabilities always equal the table applied to its
//! role; changing the role re-derives them.

use vstd::prelude::*;
use crate::AccountId;

verus! {

/// Why an employee operation was refused.
#[derive(Clone, Copy, Debug, PartialEq, Eq, Structural)]
pub enum EmployeeError {
    /// The principal is not the identity the operation requires.
    Unauthorized,
    /// No employee matches the given identifier or wallet.
    EmployeeNotFound,
    /// An employee already exists under the identifier.
    DuplicateEmployee,
    /// The department is not valid for the operation.
    InvalidDepartment,
    /// The principal's role lacks the required capability.
    InsufficientPermissions,
    /// The principal is not an active employee.
    EmployeeTerminated,
}

/// The lifecycle state of an employee.
#[derive(Clone, Copy, Debug, PartialEq, Eq, Structural)]
pub enum EmployeeStatus {
    Active,
    OnLeave,
    Terminated,
    Suspended,
}

/// The closed set of roles.
#[derive(Clone, Copy, Debug, PartialEq, Eq, Structural)]
pub enum EmployeeRole {
    SuperAdmin,
    StoreManager,
    DepartmentManager,
    Cashier,
    StockClerk,
    SalesAssociate,
    HRManager,
    Accountant,
}

/// The departments an employee can belong to.
#[derive(Clone, Copy, Debug, PartialEq, Eq, Structural)]
pub enum Department {
    Executive,
    Sales,
    Inventory,
    Finance,
    HumanResources,
    CustomerService,
    IT,
    Marketing,
}

/// The closed set of capabilities a role may grant.
#[derive(Clone, Copy, Debug, PartialEq, Eq, Structural)]
pub enum Permission {
    ManageEmployees,
    ProcessPayments,
    ManageInventory,
    ViewReports,
    ManageVendors,
    IssueLoyaltyPoints,
    ProcessPayroll,
    SystemAdmin,
}

/// A set of capabilities, one flag per capability.
#[derive(Clone, Copy, Debug, PartialEq, Eq, Structural)]
pub struct PermissionSet {
    pub manage_employees: bool,
    pub process_payments: bool,
    pub manage_inventory: bool,
    pub view_reports: bool,
    pub manage_vendors: bool,
    pub issue_loyalty_points: bool,
    pub process_payroll: bool,
    pub system_admin: bool,
}

impl PermissionSet {
    /// Whether the set grants the given capability.
    pub open spec fn spec_grants(self, permission: Permission) -> bool {
        match permission {
            Permission::ManageEmployees => self.manage_employees,
            Permission::ProcessPayments => self.process_payments,
            Permission::ManageInventory => self.manage_inventory,
            Permission::ViewReports => self.view_reports,
            Permission::ManageVendors => self.manage_vendors,
            Permission::IssueLoyaltyPoints => self.issue_loyalty_points,
            Permission::ProcessPayroll => self.process_payroll,
            Permission::SystemAdmin => self.system_admin,
        }
    }

    /// Checks whether the set grants the given capability.
    pub fn grants(&self, permission: Permission) -> (granted: bool)
        ensures
            granted == self.spec_grants(permission),
    {
        match permission {
            Permission::ManageEmployees => self.manage_employees,
            Permission::ProcessPayments => self.process_payments,
            Permission::ManageInventory => self.manage_inventory,
            Permission::ViewReports => self.view_reports,
            Permission::ManageVendors => self.manage_vendors,
            Permission::IssueLoyaltyPoints => self.issue_loyalty_points,
            Permission::ProcessPayroll => self.process_payroll,
            Permission::SystemAdmin => self.system_admin,
        }
    }
}

/// The static role-to-capability table: an immutable piece of
/// configuration, not mutated storage. SuperAdmin holds everything; a
/// StoreManager runs the store; a Cashier takes payments and issues
/// loyalty points; a StockClerk manages inventory; the remaining roles
/// hold no gate-relevant capability.
pub open spec fn spec_role_permissions(role: EmployeeRole) -> PermissionSet {
    match role {
        EmployeeRole::SuperAdmin => PermissionSet {
            manage_employees: true,
            process_payments: true,
            manage_inventory: true,
            view_reports: true,
            manage_vendors: true,
            issue_loyalty_points: true,
            process_payroll: true,
            system_admin: true,
        },
        EmployeeRole::StoreManager => PermissionSet {
            manage_employees: true,
            process_payments: true,
            manage_inventory: true,
            view_reports: true,
            manage_vendors: true,
            issue_loyalty_points: false,
            process_payroll: false,
            system_admin: false,
        },
        EmployeeRole::Cashier => PermissionSet {
            manage_employees: false,
            process_payments: true,
            manage_inventory: false,
            view_reports: false,
            manage_vendors: false,
            issue_loyalty_points: true,
            process_payroll: false,
            system_admin: false,
        },
        EmployeeRole::StockClerk => PermissionSet {
            manage_employees: false,
            process_payments: false,
            manage_inventory: true,
            view_reports: false,
            manage_vendors: false,
            issue_loyalty_points: false,
            process_payroll: false,
            system_admin: false,
        },
        _ => PermissionSet {
            manage_employees: false,
            process_payments: false,
            manage_inventory: false,
            view_reports: false,
            manage_vendors: false,
            issue_loyalty_points: false,
            process_payroll: false,
            system_admin: false,
        },
    }
}

/// The capabilities the static table assigns to a role.
pub fn role_permissions(role: EmployeeRole) -> (set: PermissionSet)
    ensures
        set == spec_role_permissions(role),
{
    match role {
        EmployeeRole::SuperAdmin => PermissionSet {
            manage_employees: true,
            process_payments: true,
            manage_inventory: true,
            view_reports: true,
            manage_vendors: true,
            issue_loyalty_points: true,
            process_payroll: true,
            system_admin: true,
        },
        EmployeeRole::StoreManager => PermissionSet {
            manage_employees: true,
            process_payments: true,
            manage_inventory: true,
            view_reports: true,
            manage_vendors: true,
            issue_loyalty_points: false,
            process_payroll: false,
            system_admin: false,
        },
        EmployeeRole::Cashier => PermissionSet {
            manage_employees: false,
            process_payments: true,
            manage_inventory: false,
            view_reports: false,
            manage_vendors: false,
            issue_loyalty_points: true,
            process_payroll: false,
            system_admin: false,
        },
        EmployeeRole::StockClerk => PermissionSet {
            manage_employees: false,
            process_payments: false,
            manage_inventory: true,
            view_reports: false,
            manage_vendors: false,
            issue_loyalty_points: false,
            process_payroll: false,
            system_admin: false,
        },
        _ => PermissionSet {
            manage_employees: false,
            process_payments: false,
            manage_inventory: false,
            view_reports: false,
            manage_vendors: false,
            issue_loyalty_points: false,
            process_payroll: false,
            system_admin: false,
        },
    }
}

/// One employee on the roster.
#[derive(Debug)]
pub struct Employee {
    /// Caller-supplied identifier; unique on the roster.
    pub employee_id: String,
    /// The employee's wallet address, used as its acting identity.
    pub wallet_address: AccountId,
    pub name: String,
    pub email: String,
    pub phone: String,
    pub department: Department,
    pub position: String,
    /// Timestamp of hiring, from the caller's clock source.
    pub hire_date: u64,
    pub status: EmployeeStatus,
    pub role: EmployeeRole,
    pub salary_grade: u32,
    /// The capabilities derived from the role via the static table.
    pub permissions: PermissionSet,
}

impl Clone for Employee {
    fn clone(&self) -> (other: Self)
        ensures
            other == *self,
    {
        Employee {
            employee_id: self.employee_id.clone(),
            wallet_address: self.wallet_address,
            name: self.name.clone(),
            email: self.email.clone(),
            phone: self.phone.clone(),
            department: self.department,
            position: self.position.clone(),
            hire_date: self.hire_date,
            status: self.status,
            role: self.role,
            salary_grade: self.salary_grade,
            permissions: self.permissions,
        }
    }
}

/// A patch to an employee record: each field is either "leave unchanged"
/// (`None`) or "set to value" (`Some`). Setting the role re-derives the
/// capabilities from the static table.
pub struct EmployeeUpdate {
    pub name: Option<String>,
    pub email: Option<String>,
    pub phone: Option<String>,
    pub department: Option<Department>,
    pub position: Option<String>,
    pub status: Option<EmployeeStatus>,
    pub role: Option<EmployeeRole>,
    pub salary_grade: Option<u32>,
}

/// The employee as it stands after a patch is applied.
pub open spec fn spec_apply_employee_update(employee: Employee, updates: EmployeeUpdate) -> Employee {
    (Employee {
        name: if updates.name is Some {
            updates.name->Some_0
        } else {
            employee.name
        },
        email: if updates.email is Some {
            updates.email->Some_0
        } else {
            employee.email
        },
        phone: if updates.phone is Some {
            updates.phone->Some_0
        } else {
            employee.phone
        },
        department: if updates.department is Some {
            updates.department->Some_0
        } else {
            employee.department
        },
        position: if updates.position is Some {
            updates.position->Some_0
        } else {
            employee.position
        },
        status: if updates.status is Some {
            updates.status->Some_0
        } else {
            employee.status
        },
        role: if updates.role is Some {
            updates.role->Some_0
        } else {
            employee.role
        },
        permissions: if updates.role is Some {
            spec_role_permissions(updates.role->Some_0)
        } else {
            employee.permissions
        },
        salary_grade: if updates.salary_grade is Some {
            updates.salary_grade->Some_0
        } else {
            employee.salary_grade
        },
        ..employee
    })
}

/// The index of the first employee with the given identifier, or -1 when
/// no employee has it.
pub open spec fn spec_employee_index(employees: Seq<Employee>, id: Seq<char>) -> int
    decreases employees.len(),
{
    if employees.len() == 0 {
        -1
    } else if employees.first().employee_id@ == id {
        0
    } else {
        let rest = spec_employee_index(employees.drop_first(), id);
        if rest == -1 {
            -1
        } else {
            rest + 1
        }
    }
}

/// The index of the first employee with the given wallet address, or -1
/// when no employee has it.
pub open spec fn spec_wallet_index(employees: Seq<Employee>, wallet: AccountId) -> int
    decreases employees.len(),
{
    if employees.len() == 0 {
        -1
    } else if employees.first().wallet_address == wallet {
        0
    } else {
        let rest = spec_wallet_index(employees.drop_first(), wallet);
        if rest == -1 {
            -1
        } else {
            rest + 1
        }
    }
}

/// What the first-match identifier index means.
pub proof fn lemma_employee_index(employees: Seq<Employee>, id: Seq<char>)
    ensures
        spec_employee_index(employees, id) == -1 <==> (forall|i: int|
            0 <= i < employees.len() ==> (#[trigger] employees[i]).employee_id@ != id),
        spec_employee_index(employees, id) != -1 ==> {
            let at = spec_employee_index(employees, id);
            &&& 0 <= at < employees.len()
            &&& employees[at].employee_id@ == id
            &&& (forall|j: int| 0 <= j < at ==> (#[trigger] employees[j]).employee_id@ != id)
        },
    decreases employees.len(),
{
    if employees.len() > 0 {
        lemma_employee_index(employees.drop_first(), id);
        let rest = spec_employee_index(employees.drop_first(), id);
        if employees.first().employee_id@ == id {
        } else if rest == -1 {
            assert forall|i: int|
                0 <= i < employees.len() implies (#[trigger] employees[i]).employee_id@ != id by {
                if i > 0 {
                    assert(employees.drop_first()[i - 1] == employees[i]);
                }
            }
        } else {
            assert(employees.drop_first()[rest] == employees[rest + 1]);
            assert forall|j: int|
                0 <= j < rest + 1 implies (#[trigger] employees[j]).employee_id@ != id by {
                if j > 0 {
                    assert(employees.drop_first()[j - 1] == employees[j]);
                }
            }
        }
    }
}

/// The first-match identifier index is `i` when the prefix before `i` is
/// free of the identifier and the employee at `i` has it.
pub proof fn lemma_employee_index_at(employees: Seq<Employee>, i: int, id: Seq<char>)
    requires
        0 <= i < employees.len(),
        employees[i].employee_id@ == id,
        forall|j: int| 0 <= j < i ==> (#[trigger] employees[j]).employee_id@ != id,
    ensures
        spec_employee_index(employees, id) == i,
    decreases i,
{
    if i > 0 {
        assert(employees.first().employee_id@ != id);
        assert(employees.drop_first()[i - 1] == employees[i]);
        assert forall|j: int|
            0 <= j < i - 1 implies (#[trigger] employees.drop_first()[j]).employee_id@ != id by {
            assert(employees.drop_first()[j] == employees[j + 1]);
        }
        lemma_employee_index_at(employees.drop_first(), i - 1, id);
    }
}

/// The first-match wallet index is `i` when the prefix before `i` is free
/// of the wallet and the employee at `i` has it.
pub proof fn lemma_wallet_index_at(employees: Seq<Employee>, i: int, wallet: AccountId)
    requires
        0 <= i < employees.len(),
        employees[i].wallet_address == wallet,
        forall|j: int| 0 <= j < i ==> (#[trigger] employees[j]).wallet_address != wallet,
    ensures
        spec_wallet_index(employees, wallet) == i,
    decreases i,
{
    if i > 0 {
        assert(employees.first().wallet_address != wallet);
        assert(employees.drop_first()[i - 1] == employees[i]);
        assert forall|j: int|
            0 <= j < i - 1 implies (#[trigger] employees.drop_first()[j]).wallet_address
            != wallet by {
            assert(employees.drop_first()[j] == employees[j + 1]);
        }
        lemma_wallet_index_at(employees.drop_first(), i - 1, wallet);
    }
}

/// The first-match wallet index is -1 exactly when no employee has the
/// wallet.
pub proof fn lemma_wallet_index_none(employees: Seq<Employee>, wallet: AccountId)
    requires
        forall|i: int|
            0 <= i < employees.len() ==> (#[trigger] employees[i]).wallet_address != wallet,
    ensures
        spec_wallet_index(employees, wallet) == -1,
    decreases employees.len(),
{
    if employees.len() > 0 {
        assert forall|i: int|
            0 <= i < employees.drop_first().len() implies (
        #[trigger] employees.drop_first()[i]).wallet_address != wallet by {
            assert(employees.drop_first()[i] == employees[i + 1]);
        }
        lemma_wallet_index_none(employees.drop_first(), wallet);
    }
}

/// Whether an employee is an active member of the given department.
pub open spec fn spec_active_in_department(employee: Employee, department: Department) -> bool {
    employee.department == department && employee.status == EmployeeStatus::Active
}

/// The active employees of the given department, in hiring order.
pub open spec fn spec_employees_in_department(
    employees: Seq<Employee>,
    department: Department,
) -> Seq<Employee> {
    employees.filter(|employee: Employee| spec_active_in_department(employee, department))
}

/// The active employees, in hiring order.
pub open spec fn spec_active_employees(employees: Seq<Employee>) -> Seq<Employee> {
    employees.filter(|employee: Employee| employee.status == EmployeeStatus::Active)
}

/// Extending the scanned prefix by one employee extends each filtered
/// view exactly when the employee passes that view's test.
pub proof fn lemma_employee_filters_step(employees: Seq<Employee>, i: int, department: Department)
    requires
        0 <= i < employees.len(),
    ensures
        spec_employees_in_department(employees.take(i + 1), department)
            == if spec_active_in_department(employees[i], department) {
            spec_employees_in_department(employees.take(i), department).push(employees[i])
        } else {
            spec_employees_in_department(employees.take(i), department)
        },
        spec_active_employees(employees.take(i + 1)) == if employees[i].status
            == EmployeeStatus::Active {
            spec_active_employees(employees.take(i)).push(employees[i])
        } else {
            spec_active_employees(employees.take(i))
        },
{
    reveal(Seq::filter);
    let prefix = employees.take(i + 1);
    assert(prefix.last() == employees[i]);
    assert(prefix.drop_last() =~= employees.take(i));
}

/// The employee manager instance: the configured super administrator and
/// the roster.
pub struct EmployeeManager {
    super_admin: AccountId,
    employees: Vec<Employee>,
}

/// The outcome of the capability gate for a principal: `None` when the
/// gate passes, otherwise the specific refusal.
pub open spec fn spec_gate(
    employees: Seq<Employee>,
    principal: AccountId,
    required: Permission,
) -> Option<EmployeeError> {
    let at = spec_wallet_index(employees, principal);
    if at == -1 {
        Some(EmployeeError::EmployeeNotFound)
    } else if employees[at].status != EmployeeStatus::Active {
        Some(EmployeeError::EmployeeTerminated)
    } else if !employees[at].permissions.spec_grants(required) {
        Some(EmployeeError::InsufficientPermissions)
    } else {
        None
    }
}

impl EmployeeManager {
    /// The configured super administrator identity.
    pub closed spec fn spec_super_admin(&self) -> AccountId {
        self.super_admin
    }

    /// The roster in hiring order.
    pub closed spec fn employees(&self) -> Seq<Employee> {
        self.employees@
    }

    /// Authorization for roster mutations: the configured super
    /// administrator always passes; anyone else must pass the capability
    /// check.
    pub open spec fn spec_admin_gate(
        &self,
        principal: AccountId,
        required: Permission,
    ) -> Option<EmployeeError> {
        if principal == self.spec_super_admin() {
            None
        } else {
            spec_gate(self.employees(), principal, required)
        }
    }

    /// Identifiers are unique and every employee's stored capabilities
    /// equal the static table applied to its role.
    pub closed spec fn wf(&self) -> bool {
        &&& (forall|i: int, j: int|
            0 <= i < j < self.employees@.len() ==> (#[trigger] self.employees@[i]).employee_id@
                != (#[trigger] self.employees@[j]).employee_id@)
        &&& (forall|i: int|
            0 <= i < self.employees@.len() ==> (#[trigger] self.employees@[i]).permissions
                == spec_role_permissions(self.employees@[i].role))
    }

    /// A fresh manager with an empty roster.
    pub fn initialize(super_admin: AccountId) -> (manager: Self)
        ensures
            manager.wf(),
            manager.spec_super_admin() == super_admin,
            manager.employees() == Seq::<Employee>::empty(),
    {
        EmployeeManager { super_admin, employees: Vec::new() }
    }

    /// The capability gate: passes exactly when the principal is a
    /// registered, active employee whose role grants the required
    /// capability, and otherwise names the specific refusal.
    #[verifier::loop_isolation(false)]
    pub fn check_permission(
        &self,
        employee_address: AccountId,
        required_permission: Permission,
    ) -> (outcome: Result<(), EmployeeError>)
        ensures
            outcome == match spec_gate(self.employees(), employee_address, required_permission) {
                Some(error) => Err::<(), EmployeeError>(error),
                None => Ok::<(), EmployeeError>(()),
            },
    {
        let n = self.employees.len();
        let mut i: usize = 0;
        while i < n
            invariant
                i <= n,
                n == self.employees@.len(),
                forall|j: int|
                    0 <= j < i ==> (#[trigger] self.employees@[j]).wallet_address
                        != employee_address,
            decreases n - i,
        {
            if self.employees[i].wallet_address == employee_address {
                proof {
                    lemma_wallet_index_at(self.employees@, i as int, employee_address);
                }
                let employee = &self.employees[i];
                let active = match employee.status {
                    EmployeeStatus::Active => true,
                    _ => false,
                };
                if !active {
                    return Err(EmployeeError::EmployeeTerminated);
                }
                if !employee.permissions.grants(required_permission) {
                    return Err(EmployeeError::InsufficientPermissions);
                }
                return Ok(());
            }
            i += 1;
        }
        proof {
            lemma_wallet_index_none(self.employees@, employee_address);
        }
        Err(EmployeeError::EmployeeNotFound)
    }

    /// Whether the principal passes the capability gate.
    pub fn has_permission(
        &self,
        employee_address: AccountId,
        required_permission: Permission,
    ) -> (granted: bool)
        ensures
            granted == (spec_gate(self.employees(), employee_address, required_permission)
                is None),
    {
        match self.check_permission(employee_address, required_permission) {
            Ok(()) => true,
            Err(_) => false,
        }
    }

    /// Hires an employee. The configured super administrator or a
    /// principal whose role grants ManageEmployees may hire; rejects a
    /// duplicate identifier. The new employee starts Active with the
    /// capabilities the static table assigns to its role.
    #[verifier::loop_isolation(false)]
    pub fn add_employee(
        &mut self,
        admin: AccountId,
        employee_id: String,
        wallet_address: AccountId,
        name: String,
        email: String,
        phone: String,
        department: Department,
        position: String,
        role: EmployeeRole,
        salary_grade: u32,
        timestamp: u64,
    ) -> (outcome: Result<Employee, EmployeeError>)
        requires
            old(self).wf(),
        ensures
            final(self).wf(),
            final(self).spec_super_admin() == old(self).spec_super_admin(),
            old(self).spec_admin_gate(admin, Permission::ManageEmployees) matches Some(error) ==> outcome == Err::<Employee, EmployeeError>(error) && *final(self) == *old(self),
            old(self).spec_admin_gate(admin, Permission::ManageEmployees) is None
                && spec_employee_index(old(self).employees(), employee_id@) != -1 ==> outcome
                == Err::<Employee, EmployeeError>(EmployeeError::DuplicateEmployee) && *final(self)
                == *old(self),
            old(self).spec_admin_gate(admin, Permission::ManageEmployees) is None
                && spec_employee_index(old(self).employees(), employee_id@) == -1 ==> (outcome
                matches Ok(employee) && {
                &&& employee == (Employee {
                    employee_id,
                    wallet_address,
                    name,
                    email,
                    phone,
                    department,
                    position,
                    hire_date: timestamp,
                    status: EmployeeStatus::Active,
                    role,
                    salary_grade,
                    permissions: spec_role_permissions(role),
                })
                &&& final(self).employees() == old(self).employees().push(employee)
            }),
    {
        if admin != self.super_admin {
            if let Err(error) = self.check_permission(admin, Permission::ManageEmployees) {
                return Err(error);
            }
        }
        proof {
            lemma_employee_index(self.employees@, employee_id@);
        }
        let n = self.employees.len();
        let mut i: usize = 0;
        while i < n
            invariant
                i <= n,
                n == self.employees@.len(),
                forall|j: int|
                    0 <= j < i ==> (#[trigger] self.employees@[j]).employee_id@ != employee_id@,
                *self == *old(self),
            decreases n - i,
        {
            if self.employees[i].employee_id.eq(&employee_id) {
                return Err(EmployeeError::DuplicateEmployee);
            }
            i += 1;
        }
        let employee = Employee {
            employee_id,
            wallet_address,
            name,
            email,
            phone,
            department,
            position,
            hire_date: timestamp,
            status: EmployeeStatus::Active,
            role,
            salary_grade,
            permissions: role_permissions(role),
        };
        let stored = employee.clone();
        proof {
            let p = self.employees@.push(stored);
            assert forall|a: int, b: int|
                0 <= a < b < p.len() implies (#[trigger] p[a]).employee_id@ != (
            #[trigger] p[b]).employee_id@ by {
                if b < self.employees@.len() {
                    assert(p[a] == self.employees@[a]);
                    assert(p[b] == self.employees@[b]);
                } else {
                    assert(p[a] == self.employees@[a]);
                    assert(p[b] == stored);
                }
            }
        }
        self.employees.push(stored);
        Ok(employee)
    }

    /// Applies a patch to an employee record, gated as hiring is. Setting
    /// the role re-derives the capabilities from the static table.
    #[verifier::loop_isolation(false)]
    pub fn update_employee(
        &mut self,
        admin: AccountId,
        employee_id: &String,
        updates: EmployeeUpdate,
    ) -> (outcome: Result<Employee, EmployeeError>)
        requires
            old(self).wf(),
        ensures
            final(self).wf(),
            final(self).spec_super_admin() == old(self).spec_super_admin(),
            old(self).spec_admin_gate(admin, Permission::ManageEmployees) matches Some(error) ==> outcome == Err::<Employee, EmployeeError>(error) && *final(self) == *old(self),
            old(self).spec_admin_gate(admin, Permission::ManageEmployees) is None
                && spec_employee_index(old(self).employees(), employee_id@) == -1 ==> outcome
                == Err::<Employee, EmployeeError>(EmployeeError::EmployeeNotFound) && *final(self)
                == *old(self),
            old(self).spec_admin_gate(admin, Permission::ManageEmployees) is None
                && spec_employee_index(old(self).employees(), employee_id@) != -1 ==> (outcome
                matches Ok(employee) && {
                let at = spec_employee_index(old(self).employees(), employee_id@);
                &&& employee == spec_apply_employee_update(old(self).employees()[at], updates)
                &&& final(self).employees() == old(self).employees().update(at, employee)
            }),
    {
        if admin != self.super_admin {
            if let Err(error) = self.check_permission(admin, Permission::ManageEmployees) {
                return Err(error);
            }
        }
        proof {
            lemma_employee_index(self.employees@, employee_id@);
        }
        let n = self.employees.len();
        let mut i: usize = 0;
        while i < n
            invariant
                i <= n,
                n == self.employees@.len(),
                forall|j: int|
                    0 <= j < i ==> (#[trigger] self.employees@[j]).employee_id@ != employee_id@,
                *self == *old(self),
            decreases n - i,
        {
            if self.employees[i].employee_id.eq(employee_id) {
                proof {
                    lemma_employee_index_at(self.employees@, i as int, employee_id@);
                }
                let found = &self.employees[i];
                let new_role = match updates.role {
                    Some(role) => role,
                    None => found.role,
                };
                let patched = Employee {
                    employee_id: found.employee_id.clone(),
                    wallet_address: found.wallet_address,
                    name: match updates.name {
                        Some(name) => name,
                        None => found.name.clone(),
                    },
                    email: match updates.email {
                        Some(email) => email,
                        None => found.email.clone(),
                    },
                    phone: match updates.phone {
                        Some(phone) => phone,
                        None => found.phone.clone(),
                    },
                    department: match updates.department {
                        Some(department) => department,
                        None => found.department,
                    },
                    position: match updates.position {
                        Some(position) => position,
                        None => found.position.clone(),
                    },
                    hire_date: found.hire_date,
                    status: match updates.status {
                        Some(status) => status,
                        None => found.status,
                    },
                    role: new_role,
                    salary_grade: match updates.salary_grade {
                        Some(salary_grade) => salary_grade,
                        None => found.salary_grade,
                    },
                    permissions: match updates.role {
                        Some(role) => role_permissions(role),
                        None => found.permissions,
                    },
                };
                let stored = patched.clone();
                proof {
                    let changed = self.employees@.update(i as int, stored);
                    assert forall|a: int, b: int|
                        0 <= a < b < changed.len() implies (#[trigger] changed[a]).employee_id@
                        != (#[trigger] changed[b]).employee_id@ by {
                        assert(self.employees@[a].employee_id@
                            != self.employees@[b].employee_id@);
                    }
                }
                self.employees.set(i, stored);
                return Ok(patched);
            }
            i += 1;
        }
        Err(EmployeeError::EmployeeNotFound)
    }

    /// Marks an employee Terminated, gated as hiring is.
    #[verifier::loop_isolation(false)]
    pub fn terminate_employee(&mut self, admin: AccountId, employee_id: &String) -> (outcome:
        Result<(), EmployeeError>)
        requires
            old(self).wf(),
        ensures
            final(self).wf(),
            final(self).spec_super_admin() == old(self).spec_super_admin(),
            old(self).spec_admin_gate(admin, Permission::ManageEmployees) matches Some(error) ==> outcome == Err::<(), EmployeeError>(error) && *final(self) == *old(self),
            old(self).spec_admin_gate(admin, Permission::ManageEmployees) is None
                && spec_employee_index(old(self).employees(), employee_id@) == -1 ==> outcome
                == Err::<(), EmployeeError>(EmployeeError::EmployeeNotFound) && *final(self)
                == *old(self),
            old(self).spec_admin_gate(admin, Permission::ManageEmployees) is None
                && spec_employee_index(old(self).employees(), employee_id@) != -1 ==> outcome
                == Ok::<(), EmployeeError>(()) && {
                let at = spec_employee_index(old(self).employees(), employee_id@);
                final(self).employees() == old(self).employees().update(
                    at,
                    (Employee { status: EmployeeStatus::Terminated, ..old(self).employees()[at] }),
                )
            },
    {
        if admin != self.super_admin {
            if let Err(error) = self.check_permission(admin, Permission::ManageEmployees) {
                return Err(error);
            }
        }
        proof {
            lemma_employee_index(self.employees@, employee_id@);
        }
        let n = self.employees.len();
        let mut i: usize = 0;
        while i < n
            invariant
                i <= n,
                n == self.employees@.len(),
                forall|j: int|
                    0 <= j < i ==> (#[trigger] self.employees@[j]).employee_id@ != employee_id@,
                *self == *old(self),
            decreases n - i,
        {
            if self.employees[i].employee_id.eq(employee_id) {
                proof {
                    lemma_employee_index_at(self.employees@, i as int, employee_id@);
                }
                let found = &self.employees[i];
                let terminated = Employee {
                    employee_id: found.employee_id.clone(),
                    wallet_address: found.wallet_address,
                    name: found.name.clone(),
                    email: found.email.clone(),
                    phone: found.phone.clone(),
                    department: found.department,
                    position: found.position.clone(),
                    hire_date: found.hire_date,
                    status: EmployeeStatus::Terminated,
                    role: found.role,
                    salary_grade: found.salary_grade,
                    permissions: found.permissions,
                };
                proof {
                    let changed = self.employees@.update(i as int, terminated);
                    assert forall|a: int, b: int|
                        0 <= a < b < changed.len() implies (#[trigger] changed[a]).employee_id@
                        != (#[trigger] changed[b]).employee_id@ by {
                        assert(self.employees@[a].employee_id@
                            != self.employees@[b].employee_id@);
                    }
                }
                self.employees.set(i, terminated);
                return Ok(());
            }
            i += 1;
        }
        Err(EmployeeError::EmployeeNotFound)
    }

    /// Reads an employee record by identifier.
    #[verifier::loop_isolation(false)]
    pub fn get_employee(&self, employee_id: &String) -> (outcome: Result<Employee, EmployeeError>)
        ensures
            spec_employee_index(self.employees(), employee_id@) == -1 ==> outcome == Err::<
                Employee,
                EmployeeError,
            >(EmployeeError::EmployeeNotFound),
            spec_employee_index(self.employees(), employee_id@) != -1 ==> outcome == Ok::<
                Employee,
                EmployeeError,
            >(self.employees()[spec_employee_index(self.employees(), employee_id@)]),
    {
        proof {
            lemma_employee_index(self.employees@, employee_id@);
        }
        let n = self.employees.len();
        let mut i: usize = 0;
        while i < n
            invariant
                i <= n,
                n == self.employees@.len(),
                forall|j: int|
                    0 <= j < i ==> (#[trigger] self.employees@[j]).employee_id@ != employee_id@,
            decreases n - i,
        {
            if self.employees[i].employee_id.eq(employee_id) {
                proof {
                    lemma_employee_index_at(self.employees@, i as int, employee_id@);
                }
                return Ok(self.employees[i].clone());
            }
            i += 1;
        }
        Err(EmployeeError::EmployeeNotFound)
    }

    /// Reads the first employee record acting under the given wallet.
    #[verifier::loop_isolation(false)]
    pub fn get_employee_by_wallet(&self, wallet_address: AccountId) -> (outcome: Result<
        Employee,
        EmployeeError,
    >)
        ensures
            spec_wallet_index(self.employees(), wallet_address) == -1 ==> outcome == Err::<
                Employee,
                EmployeeError,
            >(EmployeeError::EmployeeNotFound),
            spec_wallet_index(self.employees(), wallet_address) != -1 ==> outcome == Ok::<
                Employee,
                EmployeeError,
            >(self.employees()[spec_wallet_index(self.employees(), wallet_address)]),
    {
        let n = self.employees.len();
        let mut i: usize = 0;
        while i < n
            invariant
                i <= n,
                n == self.employees@.len(),
                forall|j: int|
                    0 <= j < i ==> (#[trigger] self.employees@[j]).wallet_address
                        != wallet_address,
            decreases n - i,
        {
            if self.employees[i].wallet_address == wallet_address {
                proof {
                    lemma_wallet_index_at(self.employees@, i as int, wallet_address);
                }
                return Ok(self.employees[i].clone());
            }
            i += 1;
        }
        proof {
            lemma_wallet_index_none(self.employees@, wallet_address);
        }
        Err(EmployeeError::EmployeeNotFound)
    }

    /// Returns the active employees of the given department, in hiring
    /// order.
    #[verifier::loop_isolation(false)]
    pub fn get_employees_by_department(&self, department: Department) -> (selected: Vec<Employee>)
        ensures
            selected@ == spec_employees_in_department(self.employees(), department),
    {
        let ghost all = self.employees@;
        let mut selected: Vec<Employee> = Vec::new();
        let n = self.employees.len();
        let mut i: usize = 0;
        proof {
            assert(all.take(0) =~= Seq::<Employee>::empty());
            reveal(Seq::filter);
        }
        while i < n
            invariant
                i <= n,
                n == all.len(),
                selected@ == spec_employees_in_department(all.take(i as int), department),
            decreases n - i,
        {
            proof {
                lemma_employee_filters_step(all, i as int, department);
            }
            let employee = &self.employees[i];
            let department_matches = employee.department_is(department);
            let active = match employee.status {
                EmployeeStatus::Active => true,
                _ => false,
            };
            if department_matches && active {
                selected.push(employee.clone());
            }
            i += 1;
        }
        proof {
            assert(all.take(n as int) =~= all);
        }
        selected
    }

    /// Returns every employee on the roster, in hiring order.
    pub fn get_all_employees(&self) -> (listed: Vec<Employee>)
        ensures
            listed@ == self.employees(),
    {
        let listed = self.employees.clone();
        proof {
            assert(listed@ =~= self.employees@);
        }
        listed
    }

    /// How many employees are active.
    #[verifier::loop_isolation(false)]
    pub fn get_active_employees_count(&self) -> (count: usize)
        ensures
            count == spec_active_employees(self.employees()).len(),
    {
        let ghost all = self.employees@;
        let n = self.employees.len();
        let mut count: usize = 0;
        let mut i: usize = 0;
        proof {
            assert(all.take(0) =~= Seq::<Employee>::empty());
            reveal(Seq::filter);
        }
        while i < n
            invariant
                i <= n,
                n == all.len(),
                count == spec_active_employees(all.take(i as int)).len(),
                count <= i,
            decreases n - i,
        {
            proof {
                lemma_employee_filters_step(all, i as int, Department::Executive);
            }
            let active = match self.employees[i].status {
                EmployeeStatus::Active => true,
                _ => false,
            };
            if active {
                count += 1;
            }
            i += 1;
        }
        proof {
            assert(all.take(n as int) =~= all);
        }
        count
    }

    /// The greeting of this system.
    pub fn hello(&self) -> (greeting: String)
        ensures
            greeting@ == "Hello from EmployeeManager!"@,
    {
        String::from_str("Hello from EmployeeManager!")
    }
}

impl Employee {
    /// Checks whether this employee belongs to the given department.
    pub fn department_is(&self, department: Department) -> (matching: bool)
        ensures
            matching == (self.department == department),
    {
        self.department == department
    }
}

} // verus!
