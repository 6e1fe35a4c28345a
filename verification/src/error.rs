//! The failures that the library's decisions report, each with the text
//! that the service shows for it.
use vstd::prelude::*;

verus! {

/// The decimal digits of `n`, most significant first.
pub open spec fn decimal_digits(n: nat) -> Seq<char>
    decreases n,
{
    if n < 10 {
        seq![digit_char(n)]
    } else {
        decimal_digits(n / 10) + seq![digit_char(n % 10)]
    }
}

pub open spec fn digit_char(d: nat) -> char {
    if d == 0 { '0' }
    else if d == 1 { '1' }
    else if d == 2 { '2' }
    else if d == 3 { '3' }
    else if d == 4 { '4' }
    else if d == 5 { '5' }
    else if d == 6 { '6' }
    else if d == 7 { '7' }
    else if d == 8 { '8' }
    else { '9' }
}

fn digit_str(d: u64) -> (r: &'static str)
    requires
        d < 10,
    ensures
        r@ == seq![digit_char(d as nat)],
{
    let r = if d == 0 { "0" }
        else if d == 1 { "1" }
        else if d == 2 { "2" }
        else if d == 3 { "3" }
        else if d == 4 { "4" }
        else if d == 5 { "5" }
        else if d == 6 { "6" }
        else if d == 7 { "7" }
        else if d == 8 { "8" }
        else { "9" };
    proof {
        reveal_strlit("0");
        reveal_strlit("1");
        reveal_strlit("2");
        reveal_strlit("3");
        reveal_strlit("4");
        reveal_strlit("5");
        reveal_strlit("6");
        reveal_strlit("7");
        reveal_strlit("8");
        reveal_strlit("9");
        assert(r@ =~= seq![digit_char(d as nat)]);
    }
    r
}

/// `n` written in decimal, as `format!("{}", n)` writes it.
pub fn decimal(n: u64) -> (r: String)
    ensures
        r@ == decimal_digits(n as nat),
    decreases n,
{
    if n < 10 {
        String::from_str(digit_str(n))
    } else {
        let head = decimal(n / 10);
        head.concat(digit_str(n % 10))
    }
}

/// Why a request was refused.
#[derive(Clone, Copy, Debug, PartialEq, Eq, Structural)]
pub enum Failure {
    LoginRateLimited,
    BadCredentials,
    NewPasswordTooShort,
    AccountNotFound,
    WrongOldPassword,
    SamePassword,
    NoPermission,
    DepartmentNotFound,
    DepartmentHasPendingRegistrations(u64),
    ProjectCreateForbidden,
    ProjectUpdateForbidden,
    ProjectDeleteForbidden,
    ProjectNotFound,
    ProjectReferenced(u64),
    RegisterRateLimited,
    UsernameEmpty,
    EmailEmpty,
    PasswordTooShort,
    RegistrationDepartmentMissing,
    AccountExists,
    DuplicatePendingRegistration,
    RegistrationNotFound,
    CurrentUserNotFound,
    ManagerWithoutDepartment,
    RequestNotFound,
    RequestProcessed,
    OtherDepartmentRequest,
    AccountTakenOnApproval,
    ProjectInactive,
    BatchEmpty,
    BatchTooLarge,
    RowDescriptionEmpty(u64),
    RowProjectNotFound(u64),
    RowProjectInactive(u64),
    FirstApprovalForbidden,
    InvalidApprovalStatus,
    EntryNotFound,
    AlreadyApproved,
    SelfApproval,
    EntryOwnerNotFound,
    OtherDepartmentEntry,
    SecondApprovalForbidden,
    NotDeptApproved,
    NotProjectOwner,
    RequestEditNotOwn,
    PendingDirectlyEditable,
    RejectedDirectlyEditable,
    RequestEditOtherMonth,
    AllowEditForbidden,
    AllowEditOtherMonth,
    OwnEntryOperation,
    OtherDepartmentOperation,
    DenyEditForbidden,
    EditNotRequested,
    UpdateNotOwn,
    UpdateLocked,
    DeleteNotOwn,
    DeleteNotPending,
    PendingListForbidden,
    AdminPasswordMissing,
    AdminPasswordTooShort,
    JwtSecretMissing,
    JwtSecretEmpty,
}

impl Failure {
    /// The text that the service answers with.
    pub open spec fn text(self) -> Seq<char> {
        match self {
            Failure::LoginRateLimited => "登录尝试过于频繁，请稍后再试"@,
            Failure::BadCredentials => "用户名或密码错误"@,
            Failure::NewPasswordTooShort => "新密码至少 6 位"@,
            Failure::AccountNotFound => "User not found"@,
            Failure::WrongOldPassword => "旧密码不正确"@,
            Failure::SamePassword => "新密码不能与旧密码相同"@,
            Failure::NoPermission => "无权限"@,
            Failure::DepartmentNotFound => "Department not found"@,
            Failure::DepartmentHasPendingRegistrations(n) => "该部门存在 "@ + decimal_digits(n as nat) + " 条待审批注册申请，无法删除。请先处理这些申请后再试"@,
            Failure::ProjectCreateForbidden => "无权限：仅工时管理员或系统管理员可创建项目"@,
            Failure::ProjectUpdateForbidden => "无权限：仅工时管理员或系统管理员可修改项目"@,
            Failure::ProjectDeleteForbidden => "无权限：仅工时管理员或系统管理员可删除项目"@,
            Failure::ProjectNotFound => "项目不存在"@,
            Failure::ProjectReferenced(n) => "该项目已被 "@ + decimal_digits(n as nat) + " 条工时记录引用，无法删除。请先删除/修改相关工时记录后再试"@,
            Failure::RegisterRateLimited => "注册请求过于频繁，请稍后再试"@,
            Failure::UsernameEmpty => "用户名不能为空"@,
            Failure::EmailEmpty => "邮箱不能为空"@,
            Failure::PasswordTooShort => "密码至少 6 位"@,
            Failure::RegistrationDepartmentMissing => "部门不存在"@,
            Failure::AccountExists => "用户名或邮箱已存在"@,
            Failure::DuplicatePendingRegistration => "已有待审批的注册申请，请勿重复提交"@,
            Failure::RegistrationNotFound => "未找到注册申请"@,
            Failure::CurrentUserNotFound => "用户不存在"@,
            Failure::ManagerWithoutDepartment => "部门负责人必须归属部门"@,
            Failure::RequestNotFound => "申请不存在"@,
            Failure::RequestProcessed => "该申请已处理"@,
            Failure::OtherDepartmentRequest => "只能审批本部门的注册申请"@,
            Failure::AccountTakenOnApproval => "用户名或邮箱已存在，无法通过"@,
            Failure::ProjectInactive => "只能为进行中的项目填写工时"@,
            Failure::BatchEmpty => "批量提交不能为空"@,
            Failure::BatchTooLarge => "单次最多提交500条工时"@,
            Failure::RowDescriptionEmpty(n) => "第"@ + decimal_digits(n as nat) + "条: 描述不能为空"@,
            Failure::RowProjectNotFound(n) => "第"@ + decimal_digits(n as nat) + "条: 项目不存在"@,
            Failure::RowProjectInactive(n) => "第"@ + decimal_digits(n as nat) + "条: 只能为进行中的项目填写工时"@,
            Failure::FirstApprovalForbidden => "无权限：仅部门负责人或管理员可进行一审"@,
            Failure::InvalidApprovalStatus => "非法审批状态"@,
            Failure::EntryNotFound => "工时记录不存在"@,
            Failure::AlreadyApproved => "该工时记录已审批"@,
            Failure::SelfApproval => "不能审批自己的工时"@,
            Failure::EntryOwnerNotFound => "工时归属用户不存在"@,
            Failure::OtherDepartmentEntry => "只能审批本部门员工的工时"@,
            Failure::SecondApprovalForbidden => "无权限：仅项目负责人或管理员可进行二审"@,
            Failure::NotDeptApproved => "该工时记录尚未通过部门负责人审批"@,
            Failure::NotProjectOwner => "无权限：只能对自己负责的项目进行二审"@,
            Failure::RequestEditNotOwn => "只能申请修改自己的工时"@,
            Failure::PendingDirectlyEditable => "待审批的工时可直接修改，无需申请"@,
            Failure::RejectedDirectlyEditable => "已拒绝的工时可直接修改，无需申请"@,
            Failure::RequestEditOtherMonth => "只能申请修改当月工时"@,
            Failure::AllowEditForbidden => "无权限：仅部门负责人或管理员可放开修改权限"@,
            Failure::AllowEditOtherMonth => "只能放开当月工时的修改权限"@,
            Failure::OwnEntryOperation => "不能操作自己的工时"@,
            Failure::OtherDepartmentOperation => "只能操作本部门员工的工时"@,
            Failure::DenyEditForbidden => "无权限：仅部门负责人或管理员可操作"@,
            Failure::EditNotRequested => "该工时记录未申请修改"@,
            Failure::UpdateNotOwn => "只能修改自己的工时"@,
            Failure::UpdateLocked => "该工时已审批，如需修改请向部门负责人申请"@,
            Failure::DeleteNotOwn => "只能删除自己的工时"@,
            Failure::DeleteNotPending => "只能撤回待审批的工时记录"@,
            Failure::PendingListForbidden => "无权限查看审批列表"@,
            Failure::AdminPasswordMissing => "ADMIN_PASSWORD must be set when creating the initial admin user"@,
            Failure::AdminPasswordTooShort => "ADMIN_PASSWORD must be at least 12 characters"@,
            Failure::JwtSecretMissing => "JWT_SECRET must be set to a strong random value"@,
            Failure::JwtSecretEmpty => "JWT_SECRET must not be empty"@,
        }
    }

    /// The text that the service answers with.
    pub fn message(&self) -> (r: String)
        ensures
            r@ == self.text(),
    {
        match self {
            Failure::LoginRateLimited => String::from_str("登录尝试过于频繁，请稍后再试"),
            Failure::BadCredentials => String::from_str("用户名或密码错误"),
            Failure::NewPasswordTooShort => String::from_str("新密码至少 6 位"),
            Failure::AccountNotFound => String::from_str("User not found"),
            Failure::WrongOldPassword => String::from_str("旧密码不正确"),
            Failure::SamePassword => String::from_str("新密码不能与旧密码相同"),
            Failure::NoPermission => String::from_str("无权限"),
            Failure::DepartmentNotFound => String::from_str("Department not found"),
            Failure::DepartmentHasPendingRegistrations(n) => String::from_str("该部门存在 ").concat(decimal(*n).as_str()).concat(" 条待审批注册申请，无法删除。请先处理这些申请后再试"),
            Failure::ProjectCreateForbidden => String::from_str("无权限：仅工时管理员或系统管理员可创建项目"),
            Failure::ProjectUpdateForbidden => String::from_str("无权限：仅工时管理员或系统管理员可修改项目"),
            Failure::ProjectDeleteForbidden => String::from_str("无权限：仅工时管理员或系统管理员可删除项目"),
            Failure::ProjectNotFound => String::from_str("项目不存在"),
            Failure::ProjectReferenced(n) => String::from_str("该项目已被 ").concat(decimal(*n).as_str()).concat(" 条工时记录引用，无法删除。请先删除/修改相关工时记录后再试"),
            Failure::RegisterRateLimited => String::from_str("注册请求过于频繁，请稍后再试"),
            Failure::UsernameEmpty => String::from_str("用户名不能为空"),
            Failure::EmailEmpty => String::from_str("邮箱不能为空"),
            Failure::PasswordTooShort => String::from_str("密码至少 6 位"),
            Failure::RegistrationDepartmentMissing => String::from_str("部门不存在"),
            Failure::AccountExists => String::from_str("用户名或邮箱已存在"),
            Failure::DuplicatePendingRegistration => String::from_str("已有待审批的注册申请，请勿重复提交"),
            Failure::RegistrationNotFound => String::from_str("未找到注册申请"),
            Failure::CurrentUserNotFound => String::from_str("用户不存在"),
            Failure::ManagerWithoutDepartment => String::from_str("部门负责人必须归属部门"),
            Failure::RequestNotFound => String::from_str("申请不存在"),
            Failure::RequestProcessed => String::from_str("该申请已处理"),
            Failure::OtherDepartmentRequest => String::from_str("只能审批本部门的注册申请"),
            Failure::AccountTakenOnApproval => String::from_str("用户名或邮箱已存在，无法通过"),
            Failure::ProjectInactive => String::from_str("只能为进行中的项目填写工时"),
            Failure::BatchEmpty => String::from_str("批量提交不能为空"),
            Failure::BatchTooLarge => String::from_str("单次最多提交500条工时"),
            Failure::RowDescriptionEmpty(n) => String::from_str("第").concat(decimal(*n).as_str()).concat("条: 描述不能为空"),
            Failure::RowProjectNotFound(n) => String::from_str("第").concat(decimal(*n).as_str()).concat("条: 项目不存在"),
            Failure::RowProjectInactive(n) => String::from_str("第").concat(decimal(*n).as_str()).concat("条: 只能为进行中的项目填写工时"),
            Failure::FirstApprovalForbidden => String::from_str("无权限：仅部门负责人或管理员可进行一审"),
            Failure::InvalidApprovalStatus => String::from_str("非法审批状态"),
            Failure::EntryNotFound => String::from_str("工时记录不存在"),
            Failure::AlreadyApproved => String::from_str("该工时记录已审批"),
            Failure::SelfApproval => String::from_str("不能审批自己的工时"),
            Failure::EntryOwnerNotFound => String::from_str("工时归属用户不存在"),
            Failure::OtherDepartmentEntry => String::from_str("只能审批本部门员工的工时"),
            Failure::SecondApprovalForbidden => String::from_str("无权限：仅项目负责人或管理员可进行二审"),
            Failure::NotDeptApproved => String::from_str("该工时记录尚未通过部门负责人审批"),
            Failure::NotProjectOwner => String::from_str("无权限：只能对自己负责的项目进行二审"),
            Failure::RequestEditNotOwn => String::from_str("只能申请修改自己的工时"),
            Failure::PendingDirectlyEditable => String::from_str("待审批的工时可直接修改，无需申请"),
            Failure::RejectedDirectlyEditable => String::from_str("已拒绝的工时可直接修改，无需申请"),
            Failure::RequestEditOtherMonth => String::from_str("只能申请修改当月工时"),
            Failure::AllowEditForbidden => String::from_str("无权限：仅部门负责人或管理员可放开修改权限"),
            Failure::AllowEditOtherMonth => String::from_str("只能放开当月工时的修改权限"),
            Failure::OwnEntryOperation => String::from_str("不能操作自己的工时"),
            Failure::OtherDepartmentOperation => String::from_str("只能操作本部门员工的工时"),
            Failure::DenyEditForbidden => String::from_str("无权限：仅部门负责人或管理员可操作"),
            Failure::EditNotRequested => String::from_str("该工时记录未申请修改"),
            Failure::UpdateNotOwn => String::from_str("只能修改自己的工时"),
            Failure::UpdateLocked => String::from_str("该工时已审批，如需修改请向部门负责人申请"),
            Failure::DeleteNotOwn => String::from_str("只能删除自己的工时"),
            Failure::DeleteNotPending => String::from_str("只能撤回待审批的工时记录"),
            Failure::PendingListForbidden => String::from_str("无权限查看审批列表"),
            Failure::AdminPasswordMissing => String::from_str("ADMIN_PASSWORD must be set when creating the initial admin user"),
            Failure::AdminPasswordTooShort => String::from_str("ADMIN_PASSWORD must be at least 12 characters"),
            Failure::JwtSecretMissing => String::from_str("JWT_SECRET must be set to a strong random value"),
            Failure::JwtSecretEmpty => String::from_str("JWT_SECRET must not be empty"),
        }
    }
}

} // verus!
