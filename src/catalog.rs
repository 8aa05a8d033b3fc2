//! Reference data: seniority levels, permission definitions, the links that
//! say which permissions a level confers, and the light projection of a
//! principal embedded in grant records.
use vstd::prelude::*;

verus! {

/// The kind of entity a permission category applies to.
#[allow(non_camel_case_types)]
#[derive(Debug, Clone, Copy, PartialEq, Eq, Structural)]
pub enum EntityType {
    DRIVER,
    EMPLOYEE,
}

impl EntityType {
    pub open spec fn spec_from_code(s: Seq<char>) -> Option<EntityType> {
        if s == "DRIVER"@ {
            Some(EntityType::DRIVER)
        } else if s == "EMPLOYEE"@ {
            Some(EntityType::EMPLOYEE)
        } else {
            None
        }
    }

    /// Reads the stored code of an entity kind.
    pub fn from_code(s: &str) -> (r: Option<EntityType>)
        ensures
            r == Self::spec_from_code(s@),
    {
        let owned = s.to_owned();
        if owned == "DRIVER".to_owned() {
            Some(EntityType::DRIVER)
        } else if owned == "EMPLOYEE".to_owned() {
            Some(EntityType::EMPLOYEE)
        } else {
            None
        }
    }
}

impl core::str::FromStr for EntityType {
    type Err = ();

    fn from_str(s: &str) -> Result<Self, Self::Err> {
        match EntityType::from_code(s) {
            Some(e) => Ok(e),
            None => Err(()),
        }
    }
}

/// The CRUD kind of a permission: create, read, update or delete.
#[derive(Debug, Clone, Copy, PartialEq, Eq, Structural)]
pub enum CrudType {
    C,
    R,
    U,
    D,
}

impl CrudType {
    pub open spec fn spec_from_code(s: Seq<char>) -> Option<CrudType> {
        if s == "C"@ {
            Some(CrudType::C)
        } else if s == "R"@ {
            Some(CrudType::R)
        } else if s == "U"@ {
            Some(CrudType::U)
        } else if s == "D"@ {
            Some(CrudType::D)
        } else {
            None
        }
    }

    /// Reads the stored one-letter code of a CRUD kind.
    pub fn from_code(s: &str) -> (r: Option<CrudType>)
        ensures
            r == Self::spec_from_code(s@),
    {
        let owned = s.to_owned();
        if owned == "C".to_owned() {
            Some(CrudType::C)
        } else if owned == "R".to_owned() {
            Some(CrudType::R)
        } else if owned == "U".to_owned() {
            Some(CrudType::U)
        } else if owned == "D".to_owned() {
            Some(CrudType::D)
        } else {
            None
        }
    }
}

impl core::str::FromStr for CrudType {
    type Err = ();

    fn from_str(s: &str) -> Result<Self, Self::Err> {
        match CrudType::from_code(s) {
            Some(c) => Ok(c),
            None => Err(()),
        }
    }
}

pub fn clone_opt_string(s: &Option<String>) -> (r: Option<String>)
    ensures
        r == *s,
{
    match s {
        Some(v) => Some(v.clone()),
        None => None,
    }
}

/// A permission definition, identified by a stable integer id.
#[derive(Debug)]
pub struct EmployeeAuthorization {
    pub pk_employee_authorization_id: i32,
    pub authorization_feature_code: String,
    pub authorization_index: i32,
    pub crud_type: CrudType,
    pub description: String,
    pub category_name_code: String,
    pub category_entity_type: EntityType,
    pub category_index: i32,
}

impl Clone for EmployeeAuthorization {
    fn clone(&self) -> (r: Self)
        ensures
            r == *self,
    {
        EmployeeAuthorization {
            pk_employee_authorization_id: self.pk_employee_authorization_id,
            authorization_feature_code: self.authorization_feature_code.clone(),
            authorization_index: self.authorization_index,
            crud_type: self.crud_type,
            description: self.description.clone(),
            category_name_code: self.category_name_code.clone(),
            category_entity_type: self.category_entity_type,
            category_index: self.category_index,
        }
    }
}

/// A seniority tier; a lower `level_index` is more senior.
#[derive(Debug)]
pub struct EmployeeLevel {
    pub pk_employee_level_id: i32,
    pub level_index: i32,
    pub level_label: String,
}

impl Clone for EmployeeLevel {
    fn clone(&self) -> (r: Self)
        ensures
            r == *self,
    {
        EmployeeLevel {
            pk_employee_level_id: self.pk_employee_level_id,
            level_index: self.level_index,
            level_label: self.level_label.clone(),
        }
    }
}

/// A level together with the permissions it confers.
#[derive(Debug)]
pub struct EmployeeLevelWithAuthorizations {
    pub pk_employee_level_id: i32,
    pub level_index: i32,
    pub level_label: String,
    pub authorizations: Vec<EmployeeAuthorization>,
}

/// One row of the level-to-permission link table.
#[derive(Debug, Clone, Copy, PartialEq, Eq, Structural)]
pub struct LevelAuthorizationLink {
    pub fk_employee_level_id: i32,
    pub fk_employee_authorization_type_id: i32,
}

/// The narrow projection of a principal (identity, name, e-mail) embedded in
/// grant records; it carries no credentials.
#[derive(Debug)]
pub struct LightEmployee {
    /// The 128 bits of the principal's UUID.
    pub pk_employee_id: u128,
    pub firstname: String,
    pub lastname: String,
    pub gender: Option<String>,
    pub professional_email: String,
}

impl Clone for LightEmployee {
    fn clone(&self) -> (r: Self)
        ensures
            r == *self,
    {
        LightEmployee {
            pk_employee_id: self.pk_employee_id,
            firstname: self.firstname.clone(),
            lastname: self.lastname.clone(),
            gender: clone_opt_string(&self.gender),
            professional_email: self.professional_email.clone(),
        }
    }
}

} // verus!
