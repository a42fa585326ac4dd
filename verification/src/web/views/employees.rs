//! Employee pages: the roll-up per employee and the forms.

use vstd::prelude::*;

use crate::domain::employee::Employee;
use crate::text::{opt_eq_str, opt_string_view, trim, trim_str, trimmed_nonempty, trimmed_opt};
use crate::web::views::transactions::{finished_energy, meter_diff_fits, tx_energy_wh};

verus! {

pub struct EmployeeRow {
    pub emp: Employee,
    pub chip_count: i64,
    pub tx_count: i64,
    pub total_wh: i64,
}

/// An employee's roll-up; a negative energy sum is shown as 0.
pub fn employee_row(emp: Employee, chip_count: i64, tx_count: i64, total_wh: i64) -> (r: EmployeeRow)
    ensures
        r.emp == emp,
        r.chip_count == chip_count,
        r.tx_count == tx_count,
        r.total_wh == (if total_wh > 0 { total_wh } else { 0 }),
{
    EmployeeRow { emp, chip_count, tx_count, total_wh: if total_wh > 0 { total_wh } else { 0 } }
}

pub struct CreateForm {
    pub display_name: String,
    pub email: Option<String>,
    pub department: Option<String>,
}

pub struct UpdateForm {
    pub display_name: String,
    pub email: Option<String>,
    pub department: Option<String>,
    pub active: Option<String>,
}

/// The values an employee form stores.
pub struct EmployeeFields {
    pub display_name: String,
    pub email: Option<String>,
    pub department: Option<String>,
    pub active: i64,
}

/// A new employee from the form; `None` when the trimmed name is empty. New
/// employees are active.
pub fn employee_from_create(form: &CreateForm) -> (r: Option<EmployeeFields>)
    ensures
        trim(form.display_name@).len() == 0 ==> r is None,
        trim(form.display_name@).len() > 0 ==> (r matches Some(f) && f.display_name@ == trim(
            form.display_name@,
        ) && opt_string_view(f.email) == trimmed_opt(form.email) && opt_string_view(f.department)
            == trimmed_opt(form.department) && f.active == 1),
{
    let name = trim_str(form.display_name.as_str());
    if name.as_str().is_empty() {
        return None;
    }
    Some(
        EmployeeFields {
            display_name: name,
            email: trimmed_nonempty(&form.email),
            department: trimmed_nonempty(&form.department),
            active: 1,
        },
    )
}

/// The edited employee from the form; `None` when the trimmed name is
/// empty. The employee stays active only when the box sent `1`.
pub fn employee_from_update(form: &UpdateForm) -> (r: Option<EmployeeFields>)
    ensures
        trim(form.display_name@).len() == 0 ==> r is None,
        trim(form.display_name@).len() > 0 ==> (r matches Some(f) && f.display_name@ == trim(
            form.display_name@,
        ) && opt_string_view(f.email) == trimmed_opt(form.email) && opt_string_view(f.department)
            == trimmed_opt(form.department) && f.active == (if form.active matches Some(a) && a@
            == "1"@ {
            1i64
        } else {
            0i64
        })),
{
    let name = trim_str(form.display_name.as_str());
    if name.as_str().is_empty() {
        return None;
    }
    Some(
        EmployeeFields {
            display_name: name,
            email: trimmed_nonempty(&form.email),
            department: trimmed_nonempty(&form.department),
            active: if opt_eq_str(&form.active, "1") {
                1
            } else {
                0
            },
        },
    )
}

pub struct RecentTx {
    pub start_time: String,
    pub stop_time: Option<String>,
    pub wallbox: String,
    pub id_tag: String,
    pub energy_wh: i64,
}

/// A recent session of an employee; energy 0 while it has no stop value.
pub fn recent_tx(
    start_time: String,
    stop_time: Option<String>,
    wallbox: String,
    id_tag: String,
    stop_meter_wh: Option<i64>,
    start_meter_wh: i64,
) -> (r: RecentTx)
    requires
        meter_diff_fits(stop_meter_wh, start_meter_wh),
    ensures
        r.start_time == start_time,
        r.stop_time == stop_time,
        r.wallbox == wallbox,
        r.id_tag == id_tag,
        r.energy_wh == (match finished_energy(stop_meter_wh, start_meter_wh) {
            Some(v) => v,
            None => 0,
        }),
{
    let energy_wh = match tx_energy_wh(stop_meter_wh, start_meter_wh) {
        Some(v) => v,
        None => 0,
    };
    RecentTx { start_time, stop_time, wallbox, id_tag, energy_wh }
}

} // verus!
