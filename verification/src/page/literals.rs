//! Fixed texts of the HTML pages.

use vstd::prelude::*;

verus! {

/// Page layout shared by the pages after login, around title, user, role, navigation, title and content. (part 1 of 7)
pub const LAYOUT_0: &'static str = "<!DOCTYPE html>\n<html lang=\"zh-CN\">\n<head>\n<meta charset=\"utf-8\">\n<meta name=\"viewport\" content=\"width=device-width, initial-scale=1\">\n<title>";

/// Page layout shared by the pages after login, around title, user, role, navigation, title and content. (part 2 of 7)
pub const LAYOUT_1: &'static str = "</title>\n\n<style>\nbody {\n    margin: 0;\n    background: #f4f6f8;\n    color: #333;\n    font-family: \"Microsoft YaHei\", sans-serif;\n}\n\nheader {\n    padding: 20px 30px;\n    background: #1f4e79;\n    color: white;\n}\n\nheader h1 {\n    margin: 0 0 8px 0;\n}\n\nnav {\n    padding: 14px 30px;\n    background: white;\n    border-bottom: 1px solid #ddd;\n}\n\nnav a {\n    margin-right: 10px;\n    color: #1f4e79;\n    text-decoration: none;\n}\n\nmain {\n    padding: 25px 30px;\n}\n\n.card {\n    margin-bottom: 20px;\n    padding: 18px;\n    background: white;\n    border-radius: 8px;\n    box-shadow: 0 1px 4px #ddd;\n}\n\ntable {\n    width: 100%;\n    border-collapse: collapse;\n    background: white;\n    margin: 12px 0 20px 0;\n}\n\nth, td {\n    padding: 9px;\n    border: 1px solid #ddd;\n    text-align: left;\n}\n\nth {\n    background: #eaf2f8;\n}\n\ninput, select, textarea {\n    margin: 4px;\n    padding: 7px;\n}\n\nbutton {\n    padding: 7px 16px;\n    cursor: pointer;\n}\n\n.warning {\n    color: #b45309;\n    font-weight: bold;\n}\n\n.danger {\n    color: #dc2626;\n    font-weight: bold;\n}\n\n.ok {\n    color: #15803d;\n    font-weight: bold;\n}\n\n.muted {\n    color: #777;\n}\n</style>\n</head>\n\n<body>\n<header>\n    <h1>研发任务与工时管理平台</h1>\n    <div>当前用户：";

/// Page layout shared by the pages after login, around title, user, role, navigation, title and content. (part 3 of 7)
pub const LAYOUT_2: &'static str = "　角色：";

/// Page layout shared by the pages after login, around title, user, role, navigation, title and content. (part 4 of 7)
pub const LAYOUT_3: &'static str = "</div>\n</header>\n\n<nav>";

/// Page layout shared by the pages after login, around title, user, role, navigation, title and content. (part 5 of 7)
pub const LAYOUT_4: &'static str = "</nav>\n\n<main>\n    <h2>";

/// Page layout shared by the pages after login, around title, user, role, navigation, title and content. (part 6 of 7)
pub const LAYOUT_5: &'static str = "</h2>\n    ";

/// Page layout shared by the pages after login, around title, user, role, navigation, title and content. (part 7 of 7)
pub const LAYOUT_6: &'static str = "\n</main>\n</body>\n</html>";

/// Login page, around the error message. (part 1 of 2)
pub const LOGIN_0: &'static str = "<!DOCTYPE html>\n<html lang=\"zh-CN\">\n<head>\n<meta charset=\"utf-8\">\n<title>RDPlatform 登录</title>\n</head>\n\n<body style=\"font-family:Microsoft YaHei;text-align:center;background:#f4f6f8;padding-top:80px;\">\n\n<div style=\"display:inline-block;background:white;padding:35px 50px;border-radius:10px;box-shadow:0 1px 5px #ddd;\">\n    <h1>研发任务与工时管理平台</h1>\n\n    ";

/// Login page, around the error message. (part 2 of 2)
pub const LOGIN_1: &'static str = "\n\n    <form method=\"post\" action=\"/login\">\n        <p>\n            用户名：\n            <input name=\"username\" required>\n        </p>\n\n        <p>\n            密　码：\n            <input type=\"password\" name=\"password\" required>\n        </p>\n\n        <button type=\"submit\">登 录</button>\n    </form>\n\n    <p style=\"color:#777;\">\n        演示账号：pm1/pm123　dev1/dv123　qa1/qa123\n    </p>\n</div>\n\n</body>\n</html>";

/// Head of the project statistics table.
pub const DASH_PROJECT_HEAD: &'static str = "<table>\n        <tr>\n            <th>项目</th>\n            <th>进度</th>\n            <th>实际成本 / 预算</th>\n            <th>估算偏差</th>\n        </tr>";

/// Row of the project statistics table. (part 1 of 10)
pub const DASH_PROJECT_ROW_0: &'static str = "<tr>\n                <td>";

/// Row of the project statistics table. (part 2 of 10)
pub const DASH_PROJECT_ROW_1: &'static str = "</td>\n                <td>";

/// Row of the project statistics table. (part 3 of 10)
pub const DASH_PROJECT_ROW_2: &'static str = " / ";

/// Row of the project statistics table. (part 4 of 10)
pub const DASH_PROJECT_ROW_3: &'static str = "（";

/// Row of the project statistics table. (part 5 of 10)
pub const DASH_PROJECT_ROW_4: &'static str = "%）</td>\n                <td class='";

/// Row of the project statistics table. (part 6 of 10)
pub const DASH_PROJECT_ROW_5: &'static str = "'>";

/// Row of the project statistics table. (part 7 of 10)
pub const DASH_PROJECT_ROW_6: &'static str = " / ";

/// Row of the project statistics table. (part 8 of 10)
pub const DASH_PROJECT_ROW_7: &'static str = "</td>\n                <td class='";

/// Row of the project statistics table. (part 9 of 10)
pub const DASH_PROJECT_ROW_8: &'static str = "'>";

/// Row of the project statistics table. (part 10 of 10)
pub const DASH_PROJECT_ROW_9: &'static str = " 小时</td>\n            </tr>";

/// Row shown when there is no project on the dashboard.
pub const DASH_NO_PROJECT: &'static str = "<tr>\n                <td colspan='4' class='muted'>暂无项目</td>\n            </tr>";

/// Head of the member load table.
pub const DASH_LOAD_HEAD: &'static str = "<table>\n        <tr>\n            <th>成员 ID</th>\n            <th>姓名</th>\n            <th>累计工时</th>\n        </tr>";

/// Row of the member load table. (part 1 of 4)
pub const DASH_LOAD_ROW_0: &'static str = "<tr>\n                <td>";

/// Row of the member load table. (part 2 of 4)
pub const DASH_LOAD_ROW_1: &'static str = "</td>\n                <td>";

/// Row of the member load table. (part 3 of 4)
pub const DASH_LOAD_ROW_2: &'static str = "</td>\n                <td>";

/// Row of the member load table. (part 4 of 4)
pub const DASH_LOAD_ROW_3: &'static str = " 小时</td>\n            </tr>";

/// Head of the overdue task table.
pub const DASH_OVERDUE_HEAD: &'static str = "<table>\n        <tr>\n            <th>任务</th>\n            <th>截止日期</th>\n            <th>状态</th>\n        </tr>";

/// Row of the overdue task table. (part 1 of 4)
pub const DASH_OVERDUE_ROW_0: &'static str = "<tr class='danger'>\n                <td>";

/// Row of the overdue task table. (part 2 of 4)
pub const DASH_OVERDUE_ROW_1: &'static str = "</td>\n                <td>";

/// Row of the overdue task table. (part 3 of 4)
pub const DASH_OVERDUE_ROW_2: &'static str = "</td>\n                <td>";

/// Row of the overdue task table. (part 4 of 4)
pub const DASH_OVERDUE_ROW_3: &'static str = "</td>\n            </tr>";

/// Head of the project table.
pub const PROJECTS_HEAD: &'static str = "<table>\n        <tr>\n            <th>名称</th>\n            <th>描述</th>\n            <th>预算</th>\n            <th>开始日期</th>\n            <th>截止日期</th>\n            <th>状态</th>\n        </tr>";

/// Row of the project table. (part 1 of 7)
pub const PROJECTS_ROW_0: &'static str = "<tr>\n                <td>";

/// Row of the project table. (part 2 of 7)
pub const PROJECTS_ROW_1: &'static str = "</td>\n                <td>";

/// Row of the project table. (part 3 of 7)
pub const PROJECTS_ROW_2: &'static str = "</td>\n                <td>";

/// Row of the project table. (part 4 of 7)
pub const PROJECTS_ROW_3: &'static str = "</td>\n                <td>";

/// Row of the project table. (part 5 of 7)
pub const PROJECTS_ROW_4: &'static str = "</td>\n                <td>";

/// Row of the project table. (part 6 of 7)
pub const PROJECTS_ROW_5: &'static str = "</td>\n                <td>";

/// Row of the project table. (part 7 of 7)
pub const PROJECTS_ROW_6: &'static str = "</td>\n            </tr>";

/// Row shown when there is no project.
pub const PROJECTS_NONE: &'static str = "<tr>\n                <td colspan='6' class='muted'>暂无项目</td>\n            </tr>";

/// Form that creates a project.
pub const PROJECTS_FORM: &'static str = "<div class='card'>\n<h3>新建项目</h3>\n\n<form method=\"post\" action=\"/project\">\n    <p>项目名称：<input name=\"name\" required></p>\n    <p>项目描述：<input name=\"desc\"></p>\n    <p>预算：<input name=\"budget\" type=\"number\" step=\"0.01\" min=\"0\"></p>\n    <p>开始日期：<input name=\"start\" type=\"date\"></p>\n    <p>截止日期：<input name=\"deadline\" type=\"date\"></p>\n    <button type=\"submit\">创建项目</button>\n</form>\n</div>";

/// One option of the task status menu. (part 1 of 4)
pub const STATUS_OPTION_0: &'static str = "<option value='";

/// One option of the task status menu. (part 2 of 4)
pub const STATUS_OPTION_1: &'static str = "'";

/// One option of the task status menu. (part 3 of 4)
pub const STATUS_OPTION_2: &'static str = ">";

/// One option of the task status menu. (part 4 of 4)
pub const STATUS_OPTION_3: &'static str = "</option>";

/// Head of the task table.
pub const TASKS_HEAD: &'static str = "<table>\n        <tr>\n            <th>任务</th>\n            <th>项目</th>\n            <th>负责人</th>\n            <th>优先级</th>\n            <th>状态</th>\n            <th>预估工时</th>\n            <th>截止日期</th>\n            <th>操作</th>\n        </tr>";

/// Row of the task table. (part 1 of 10)
pub const TASKS_ROW_0: &'static str = "<tr>\n                <td>";

/// Row of the task table. (part 2 of 10)
pub const TASKS_ROW_1: &'static str = "</td>\n                <td>";

/// Row of the task table. (part 3 of 10)
pub const TASKS_ROW_2: &'static str = "</td>\n                <td>";

/// Row of the task table. (part 4 of 10)
pub const TASKS_ROW_3: &'static str = "</td>\n                <td>";

/// Row of the task table. (part 5 of 10)
pub const TASKS_ROW_4: &'static str = "</td>\n                <td>";

/// Row of the task table. (part 6 of 10)
pub const TASKS_ROW_5: &'static str = "</td>\n                <td>";

/// Row of the task table. (part 7 of 10)
pub const TASKS_ROW_6: &'static str = "</td>\n                <td>";

/// Row of the task table. (part 8 of 10)
pub const TASKS_ROW_7: &'static str = "</td>\n                <td>\n                    <form method='post' action='/task'>\n                        <input type='hidden' name='action' value='status'>\n                        <input type='hidden' name='task_id' value='";

/// Row of the task table. (part 9 of 10)
pub const TASKS_ROW_8: &'static str = "'>\n                        <select name='status'>";

/// Row of the task table. (part 10 of 10)
pub const TASKS_ROW_9: &'static str = "</select>\n                        <button type='submit'>更新</button>\n                    </form>\n                </td>\n            </tr>";

/// Row shown when there is no task.
pub const TASKS_NONE: &'static str = "<tr>\n                <td colspan='8' class='muted'>暂无任务</td>\n            </tr>";

/// Form that creates a task.
pub const TASKS_FORM: &'static str = "<div class='card'>\n<h3>新建任务</h3>\n\n<form method=\"post\" action=\"/task\">\n    <input type=\"hidden\" name=\"action\" value=\"new\">\n\n    <p>项目 ID：\n        <input name=\"project_id\" type=\"number\" min=\"1\" required>\n    </p>\n\n    <p>任务标题：\n        <input name=\"title\" required>\n    </p>\n\n    <p>负责人 ID：\n        <input name=\"assignee\" type=\"number\" min=\"1\">\n    </p>\n\n    <p>优先级：\n        <select name=\"priority\">\n            <option value=\"高\">高</option>\n            <option value=\"中\" selected>中</option>\n            <option value=\"低\">低</option>\n        </select>\n    </p>\n\n    <p>预估工时：\n        <input name=\"estimate_hours\" type=\"number\" step=\"0.5\" min=\"0\">\n    </p>\n\n    <p>截止日期：\n        <input name=\"deadline\" type=\"date\">\n    </p>\n\n    <button type=\"submit\">创建任务</button>\n</form>\n</div>";

/// Start of the timesheet form, up to the task menu.
pub const TIMESHEET_FORM_HEAD: &'static str = "<div class='card'>\n<h3>登记工时</h3>\n\n<form method=\"post\" action=\"/timesheet\">\n    <p>任务：\n        <select name=\"task_id\">";

/// One task of the timesheet form. (part 1 of 3)
pub const TIMESHEET_TASK_OPTION_0: &'static str = "<option value='";

/// One task of the timesheet form. (part 2 of 3)
pub const TIMESHEET_TASK_OPTION_1: &'static str = "'>";

/// One task of the timesheet form. (part 3 of 3)
pub const TIMESHEET_TASK_OPTION_2: &'static str = "</option>";

/// Rest of the timesheet form.
pub const TIMESHEET_FORM_TAIL: &'static str = "</select>\n    </p>\n\n    <p>日期：\n        <input name=\"date\" type=\"date\">\n    </p>\n\n    <p>工时：\n        <input name=\"hours\" type=\"number\" step=\"0.5\" min=\"0.5\" required>\n    </p>\n\n    <p>备注：\n        <input name=\"note\">\n    </p>\n\n    <button type=\"submit\">提交工时</button>\n</form>\n</div>";

/// Head of the over-estimate card.
pub const TIMESHEET_WARN_HEAD: &'static str = "<div class='card'>\n        <h3>超预估工时提醒</h3>";

/// Warning for a task over its estimate. (part 1 of 4)
pub const TIMESHEET_WARNING_0: &'static str = "<p class='danger'>\n                    任务《";

/// Warning for a task over its estimate. (part 2 of 4)
pub const TIMESHEET_WARNING_1: &'static str = "》已使用 ";

/// Warning for a task over its estimate. (part 3 of 4)
pub const TIMESHEET_WARNING_2: &'static str = " 小时，\n                    超过预估 ";

/// Warning for a task over its estimate. (part 4 of 4)
pub const TIMESHEET_WARNING_3: &'static str = " 小时。\n                </p>";

/// Note shown when no task is over its estimate.
pub const TIMESHEET_NO_WARNING: &'static str = "<p class='ok'>\n                目前没有超出预估工时的任务。\n            </p>";

/// Head of the table of my tasks.
pub const MY_TASKS_HEAD: &'static str = "<table>\n        <tr>\n            <th>任务</th>\n            <th>优先级</th>\n            <th>状态</th>\n            <th>预估工时</th>\n            <th>截止日期</th>\n        </tr>";

/// Row of the table of my tasks. (part 1 of 6)
pub const MY_TASKS_ROW_0: &'static str = "<tr>\n                <td>";

/// Row of the table of my tasks. (part 2 of 6)
pub const MY_TASKS_ROW_1: &'static str = "</td>\n                <td>";

/// Row of the table of my tasks. (part 3 of 6)
pub const MY_TASKS_ROW_2: &'static str = "</td>\n                <td>";

/// Row of the table of my tasks. (part 4 of 6)
pub const MY_TASKS_ROW_3: &'static str = "</td>\n                <td>";

/// Row of the table of my tasks. (part 5 of 6)
pub const MY_TASKS_ROW_4: &'static str = "</td>\n                <td>";

/// Row of the table of my tasks. (part 6 of 6)
pub const MY_TASKS_ROW_5: &'static str = "</td>\n            </tr>";

/// Row shown when no task is assigned to me.
pub const MY_TASKS_NONE: &'static str = "<tr>\n                <td colspan='5' class='muted'>\n                    暂无分配给你的任务\n                </td>\n            </tr>";

/// Head of the table of my timesheets.
pub const MY_HOURS_HEAD: &'static str = "<table>\n        <tr>\n            <th>任务</th>\n            <th>日期</th>\n            <th>工时</th>\n            <th>备注</th>\n        </tr>";

/// Row of the table of my timesheets. (part 1 of 5)
pub const MY_HOURS_ROW_0: &'static str = "<tr>\n                <td>";

/// Row of the table of my timesheets. (part 2 of 5)
pub const MY_HOURS_ROW_1: &'static str = "</td>\n                <td>";

/// Row of the table of my timesheets. (part 3 of 5)
pub const MY_HOURS_ROW_2: &'static str = "</td>\n                <td>";

/// Row of the table of my timesheets. (part 4 of 5)
pub const MY_HOURS_ROW_3: &'static str = "</td>\n                <td>";

/// Row of the table of my timesheets. (part 5 of 5)
pub const MY_HOURS_ROW_4: &'static str = "</td>\n            </tr>";

/// Row shown when I booked no hours.
pub const MY_HOURS_NONE: &'static str = "<tr>\n                <td colspan='4' class='muted'>\n                    暂无工时记录\n                </td>\n            </tr>";

/// Head of the member table.
pub const MEMBERS_HEAD: &'static str = "<table>\n        <tr>\n            <th>ID</th>\n            <th>用户名</th>\n            <th>姓名</th>\n            <th>角色</th>\n            <th>费率</th>\n        </tr>";

/// Row of the member table. (part 1 of 6)
pub const MEMBERS_ROW_0: &'static str = "<tr>\n                <td>";

/// Row of the member table. (part 2 of 6)
pub const MEMBERS_ROW_1: &'static str = "</td>\n                <td>";

/// Row of the member table. (part 3 of 6)
pub const MEMBERS_ROW_2: &'static str = "</td>\n                <td>";

/// Row of the member table. (part 4 of 6)
pub const MEMBERS_ROW_3: &'static str = "</td>\n                <td>";

/// Row of the member table. (part 5 of 6)
pub const MEMBERS_ROW_4: &'static str = "</td>\n                <td>";

/// Row of the member table. (part 6 of 6)
pub const MEMBERS_ROW_5: &'static str = " 元/小时</td>\n            </tr>";

/// Row shown when there is no member.
pub const MEMBERS_NONE: &'static str = "<tr>\n                <td colspan='5' class='muted'>暂无成员</td>\n            </tr>";

/// Form that adds a member.
pub const MEMBERS_FORM: &'static str = "<div class='card'>\n<h3>新增成员</h3>\n\n<form method=\"post\" action=\"/member\">\n    <p>用户名：\n        <input name=\"username\" required>\n    </p>\n\n    <p>密码：\n        <input name=\"password\" type=\"password\" required>\n    </p>\n\n    <p>姓名：\n        <input name=\"name\" required>\n    </p>\n\n    <p>角色：\n        <select name=\"role\">\n            <option value=\"Pm\">项目经理</option>\n            <option value=\"Dev\">开发</option>\n            <option value=\"Qa\">测试</option>\n        </select>\n    </p>\n\n    <p>小时费率：\n        <input name=\"rate\" type=\"number\" step=\"0.01\" min=\"0\">\n    </p>\n\n    <button type=\"submit\">新增成员</button>\n</form>\n</div>";

/// Error page, around the message. (part 1 of 2)
pub const ERROR_PAGE_0: &'static str = "<h1>出错了</h1>\n        <p>";

/// Error page, around the message. (part 2 of 2)
pub const ERROR_PAGE_1: &'static str = "</p>\n        <p><a href='/'>返回首页</a></p>";

} // verus!
